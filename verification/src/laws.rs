//! Laws of the library: what holds across several of its functions.

use vstd::prelude::*;

use crate::args::{
    chosen_mods, first_fault, overridden, read_words, remote_path_of, setting_of, ArgsStopView,
    ArgsView, Command, Kind,
};
use crate::config::{
    all_ids, catalogue, effective_token, find_in, loaded, raw_address, sheet_ids, token_in, ModView,
    StateView,
};
use crate::edit::{
    first_untranslated, in_one_line, normalized, reference_in, solid, untranslated, Round,
    SessionView,
};
use crate::github::{read_in, reads_back, says_missing, ReadFault, RemoteView};
use crate::http::{text_in, ReplyView};
use crate::json::{field, reads_as, text_of, JsonTree};
use crate::menu::{choice_of, command_in, pick_of, step_of, ChoiceView, MenuStep, PickView};
use crate::sheet::{
    braces_in_order, first_place, first_text, keyed_rows, last_place, named, reference_text,
    row_values, sheet_in_reply, text_at,
};
use crate::sync::{absent_from, emptied, extended, filled, pulled, same_content};
use crate::table::{
    distinct, file_text, has_key, inserted, keys_of, loads_as, lookup, position, removed,
    translated,
};
use crate::text::{
    all_digits, blank, cut_end, cut_start, decimal, digits_value, is_digit, joined,
    lemma_next_index, lines_of, next_index, number_in, trimmed, unsigned,
    visible, whitespace, without_return, Class,
};

verus! {

broadcast use vstd::seq::group_seq_axioms;

/// The place of a key holds the key, and no other place does.
pub(crate) proof fn lemma_position(e: Seq<(Seq<char>, Seq<char>)>, key: Seq<char>)
    requires
        distinct(e),
        has_key(e, key),
    ensures
        0 <= position(e, key) < e.len(),
        e[position(e, key)].0 == key,
        forall|i: int| 0 <= i < e.len() && (#[trigger] e[i]).0 == key ==> i == position(e, key),
{
    let p = position(e, key);
    assert forall|i: int| 0 <= i < e.len() && (#[trigger] e[i]).0 == key implies i == p by {
        if i < p {
            assert(e[i].0 != e[p].0);
        } else if p < i {
            assert(e[p].0 != e[i].0);
        }
    }
}

/// A table whose entry was set has that text, and its keys stand where they stood; a new key
/// stands at the end. No other entry changes.
pub proof fn law_insert(e: Seq<(Seq<char>, Seq<char>)>, key: Seq<char>, text: Seq<char>)
    requires
        distinct(e),
    ensures
        distinct(inserted(e, key, text)),
        lookup(inserted(e, key, text), key) == Some(text),
        keys_of(inserted(e, key, text)) == if has_key(e, key) {
            keys_of(e)
        } else {
            keys_of(e).push(key)
        },
        forall|other: Seq<char>|
            other != key ==> #[trigger] lookup(inserted(e, key, text), other) == lookup(e, other),
{
    let f = inserted(e, key, text);
    if has_key(e, key) {
        lemma_position(e, key);
    }
    assert(distinct(f)) by {
        assert forall|i: int, j: int| 0 <= i < j < f.len() implies (#[trigger] f[i]).0 != (
        #[trigger] f[j]).0 by {
            if has_key(e, key) {
                assert(e[i].0 != e[j].0);
            } else if j < e.len() {
                assert(e[i].0 != e[j].0);
            } else {
                assert(e[i].0 != key);
            }
        }
    }
    if has_key(e, key) {
        assert(f[position(e, key)].0 == key);
    } else {
        assert(f[e.len() as int].0 == key);
    }
    lemma_position(f, key);
    assert(keys_of(f) =~= if has_key(e, key) {
        keys_of(e)
    } else {
        keys_of(e).push(key)
    });
    assert forall|other: Seq<char>| other != key implies #[trigger] lookup(f, other) == lookup(
        e,
        other,
    ) by {
        if has_key(e, other) {
            lemma_position(e, other);
            let p = position(e, other);
            assert(f[p].0 == other);
            lemma_position(f, other);
        } else if has_key(f, other) {
            lemma_position(f, other);
            let p = position(f, other);
            if p < e.len() {
                assert(e[p].0 == other);
            }
        }
    }
}

/// A table from which a key was taken no longer has it; the other entries keep their texts and
/// their order.
pub proof fn law_remove(e: Seq<(Seq<char>, Seq<char>)>, key: Seq<char>)
    requires
        distinct(e),
    ensures
        distinct(removed(e, key)),
        !has_key(removed(e, key), key),
        has_key(e, key) ==> keys_of(removed(e, key)) == keys_of(e).remove(position(e, key)),
        forall|other: Seq<char>|
            other != key ==> #[trigger] lookup(removed(e, key), other) == lookup(e, other),
{
    let f = removed(e, key);
    if has_key(e, key) {
        lemma_position(e, key);
        let p = position(e, key);
        assert forall|i: int| 0 <= i < f.len() implies f[i] == e[if i < p {
            i
        } else {
            i + 1
        }] by {}
        assert(distinct(f)) by {
            assert forall|i: int, j: int| 0 <= i < j < f.len() implies (#[trigger] f[i]).0 != (
            #[trigger] f[j]).0 by {
                let a = if i < p {
                    i
                } else {
                    i + 1
                };
                let b = if j < p {
                    j
                } else {
                    j + 1
                };
                assert(e[a].0 != e[b].0);
            }
        }
        assert(keys_of(f) =~= keys_of(e).remove(p));
        assert forall|other: Seq<char>| other != key implies #[trigger] lookup(f, other) == lookup(
            e,
            other,
        ) by {
            if has_key(e, other) {
                lemma_position(e, other);
                let q = position(e, other);
                let r = if q < p {
                    q
                } else {
                    q - 1
                };
                assert(f[r].0 == other);
                lemma_position(f, other);
            } else if has_key(f, other) {
                lemma_position(f, other);
                let q = position(f, other);
                let r = if q < p {
                    q
                } else {
                    q + 1
                };
                assert(e[r].0 == other);
            }
        }
    }
}

/// A fetch keeps every entry of the table, with its text and in its place; what it adds stands
/// after them, without a text, under keys of the spreadsheet. No key comes to stand twice.
pub proof fn law_fetch_keeps_entries(e: Seq<(Seq<char>, Seq<char>)>, keys: Seq<Seq<char>>)
    requires
        distinct(e),
    ensures
        distinct(extended(e, keys)),
        e.len() <= extended(e, keys).len(),
        extended(e, keys).take(e.len() as int) == e,
        forall|i: int|
            e.len() <= i < extended(e, keys).len() ==> (#[trigger] extended(e, keys)[i]).1.len()
                == 0 && keys.contains(extended(e, keys)[i].0),
    decreases keys.len(),
{
    let f = extended(e, keys);
    if keys.len() > 0 {
        let before = extended(e, keys.drop_last());
        law_fetch_keeps_entries(e, keys.drop_last());
        assert forall|i: int| e.len() <= i < f.len() implies (#[trigger] f[i]).1.len() == 0
            && keys.contains(f[i].0) by {
            if i < before.len() {
                assert(f[i] == before[i]);
                let k = choose|k: int|
                    0 <= k < keys.drop_last().len() && keys.drop_last()[k] == before[i].0;
                assert(keys[k] == f[i].0);
            } else {
                assert(keys[keys.len() - 1] == f[i].0);
            }
        }
        assert(distinct(f)) by {
            assert forall|i: int, j: int| 0 <= i < j < f.len() implies (#[trigger] f[i]).0 != (
            #[trigger] f[j]).0 by {
                assert(f[i] == before[i]);
                if j < before.len() {
                    assert(f[j] == before[j]);
                }
            }
        }
        assert(f.take(e.len() as int) =~= before.take(e.len() as int));
    } else {
        assert(e.take(e.len() as int) =~= e);
    }
}

/// After a fetch the table has an entry for every key of the spreadsheet.
pub proof fn law_fetch_covers_sheet(e: Seq<(Seq<char>, Seq<char>)>, keys: Seq<Seq<char>>)
    ensures
        forall|i: int| 0 <= i < keys.len() ==> has_key(extended(e, keys), #[trigger] keys[i]),
        forall|k: Seq<char>| has_key(e, k) ==> has_key(extended(e, keys), k),
    decreases keys.len(),
{
    if keys.len() > 0 {
        let before = extended(e, keys.drop_last());
        let f = extended(e, keys);
        law_fetch_covers_sheet(e, keys.drop_last());
        assert forall|k: Seq<char>| has_key(before, k) implies has_key(f, k) by {
            let i = choose|i: int| 0 <= i < before.len() && (#[trigger] before[i]).0 == k;
            assert(f[i] == before[i]);
        }
        assert(has_key(f, keys.last())) by {
            if !has_key(before, keys.last()) {
                assert(f[before.len() as int].0 == keys.last());
            }
        }
        assert forall|i: int| 0 <= i < keys.len() implies has_key(f, #[trigger] keys[i]) by {
            if i < keys.len() - 1 {
                assert(keys.drop_last()[i] == keys[i]);
            }
        }
    }
}

/// `names` without those that stood before.
pub open spec fn without_repeats(names: Seq<Seq<char>>) -> Seq<Seq<char>>
    decreases names.len(),
{
    if names.len() == 0 {
        names
    } else if names.drop_last().contains(names.last()) {
        without_repeats(names.drop_last())
    } else {
        without_repeats(names.drop_last()).push(names.last())
    }
}

pub(crate) proof fn lemma_without_repeats(names: Seq<Seq<char>>)
    ensures
        forall|n: Seq<char>| #[trigger] without_repeats(names).contains(n) <==> names.contains(n),
    decreases names.len(),
{
    if names.len() > 0 {
        let short = names.drop_last();
        let before = without_repeats(short);
        let f = without_repeats(names);
        lemma_without_repeats(short);
        assert forall|n: Seq<char>| #[trigger] f.contains(n) <==> names.contains(n) by {
            assert(before.contains(n) <==> short.contains(n));
            assert(names =~= short.push(names.last()));
            assert(names[names.len() - 1] == names.last());
            if names.contains(n) && n != names.last() {
                let k = choose|k: int| 0 <= k < names.len() && names[k] == n;
                assert(short[k] == n);
            }
            if short.contains(n) {
                let k = choose|k: int| 0 <= k < short.len() && short[k] == n;
                assert(names[k] == n);
            }
            if !short.contains(names.last()) {
                assert(f[before.len() as int] == names.last());
                if before.contains(n) {
                    let k = choose|k: int| 0 <= k < before.len() && before[k] == n;
                    assert(f[k] == n);
                }
                if f.contains(n) && n != names.last() {
                    let k = choose|k: int| 0 <= k < f.len() && f[k] == n;
                    assert(before[k] == n);
                }
            }
        }
    }
}

/// The keys that a fetch adds stand in the order of the spreadsheet, each where it first occurs
/// there, after the keys that the table had.
pub proof fn law_fetch_adds_in_order(e: Seq<(Seq<char>, Seq<char>)>, keys: Seq<Seq<char>>)
    ensures
        keys_of(extended(e, keys)) == keys_of(e) + without_repeats(absent_from(keys, keys_of(e))),
    decreases keys.len(),
{
    let had = keys_of(e);
    if keys.len() > 0 {
        let short = keys.drop_last();
        let key = keys.last();
        let before = extended(e, short);
        let fresh = absent_from(short, had);
        law_fetch_adds_in_order(e, short);
        lemma_without_repeats(fresh);
        lemma_keys(e, key);
        lemma_keys(before, key);
        let all = keys_of(before);
        assert(all.contains(key) <==> had.contains(key) || fresh.contains(key)) by {
            let added = without_repeats(fresh);
            if all.contains(key) {
                let k = choose|k: int| 0 <= k < all.len() && all[k] == key;
                if k < had.len() {
                    assert(had[k] == key);
                } else {
                    assert(added[k - had.len()] == key);
                }
            }
            if had.contains(key) {
                let k = choose|k: int| 0 <= k < had.len() && had[k] == key;
                assert(all[k] == key);
            }
            if added.contains(key) {
                let k = choose|k: int| 0 <= k < added.len() && added[k] == key;
                assert(all[had.len() + k] == key);
            }
        }
        if has_key(before, key) {
            if !had.contains(key) {
                assert(fresh.push(key).drop_last() =~= fresh);
                assert(without_repeats(fresh.push(key)) == without_repeats(fresh));
            }
        } else {
            let added = without_repeats(fresh);
            assert(fresh.push(key).drop_last() =~= fresh);
            assert(without_repeats(fresh.push(key)) == added.push(key));
            assert(keys_of(before.push((key, Seq::empty()))) =~= all.push(key));
            assert(had + added.push(key) =~= (had + added).push(key));
        }
    } else {
        assert(keys_of(e) =~= keys_of(e) + without_repeats(absent_from(keys, had)));
    }
}

/// A key stands in a table exactly where it is among its keys.
pub(crate) proof fn lemma_keys(e: Seq<(Seq<char>, Seq<char>)>, key: Seq<char>)
    ensures
        has_key(e, key) <==> keys_of(e).contains(key),
{
    if has_key(e, key) {
        let k = choose|k: int| 0 <= k < e.len() && (#[trigger] e[k]).0 == key;
        assert(keys_of(e)[k] == key);
    }
    if keys_of(e).contains(key) {
        let k = choose|k: int| 0 <= k < keys_of(e).len() && keys_of(e)[k] == key;
        assert(e[k].0 == key);
    }
}

/// The file of the reference texts holds them as they stand in the spreadsheet, where no key stands
/// there twice.
pub proof fn law_base_table(pairs: Seq<(Seq<char>, Seq<char>)>)
    requires
        distinct(pairs),
    ensures
        filled(Seq::empty(), pairs) == pairs,
    decreases pairs.len(),
{
    if pairs.len() > 0 {
        let short = pairs.drop_last();
        assert(distinct(short));
        law_base_table(short);
        assert(!has_key(short, pairs.last().0)) by {
            if has_key(short, pairs.last().0) {
                let k = choose|k: int|
                    0 <= k < short.len() && (#[trigger] short[k]).0 == pairs.last().0;
                assert(pairs[k].0 != pairs[pairs.len() - 1].0);
            }
        }
        assert(short.push(pairs.last()) =~= pairs);
    } else {
        assert(filled(Seq::empty(), pairs) =~= pairs);
    }
}

/// A second fetch of the same spreadsheet changes nothing.
pub proof fn law_fetch_twice(e: Seq<(Seq<char>, Seq<char>)>, keys: Seq<Seq<char>>)
    ensures
        extended(extended(e, keys), keys) == extended(e, keys),
{
    law_fetch_covers_sheet(e, keys);
    lemma_nothing_to_add(extended(e, keys), keys);
}

proof fn lemma_nothing_to_add(e: Seq<(Seq<char>, Seq<char>)>, keys: Seq<Seq<char>>)
    requires
        forall|i: int| 0 <= i < keys.len() ==> has_key(e, #[trigger] keys[i]),
    ensures
        extended(e, keys) == e,
    decreases keys.len(),
{
    if keys.len() > 0 {
        assert forall|i: int| 0 <= i < keys.drop_last().len() implies has_key(
            e,
            #[trigger] keys.drop_last()[i],
        ) by {
            assert(keys.drop_last()[i] == keys[i]);
        }
        lemma_nothing_to_add(e, keys.drop_last());
        assert(has_key(e, keys[keys.len() - 1]));
    }
}

/// To fill an empty table from the reference texts is to fetch into an empty table.
pub proof fn law_seed_is_fetch(references: Seq<(Seq<char>, Seq<char>)>)
    ensures
        filled(Seq::empty(), emptied(references)) == extended(Seq::empty(), keys_of(references)),
    decreases references.len(),
{
    if references.len() > 0 {
        let shorter = references.drop_last();
        let before = extended(Seq::empty(), keys_of(shorter));
        let key = references.last().0;
        law_seed_is_fetch(shorter);
        law_fetch_keeps_entries(Seq::empty(), keys_of(shorter));
        assert(emptied(references).drop_last() =~= emptied(shorter));
        assert(keys_of(references).drop_last() =~= keys_of(shorter));
        if has_key(before, key) {
            lemma_position(before, key);
            assert(before[position(before, key)].1 =~= Seq::<char>::empty());
            assert(inserted(before, key, Seq::empty()) =~= before);
        }
    }
}

/// The keys that a fetch reports are those of the table that the spreadsheet does not have.
pub proof fn law_fetch_reports_gone(keys: Seq<Seq<char>>, others: Seq<Seq<char>>)
    ensures
        forall|k: Seq<char>|
            #[trigger] absent_from(keys, others).contains(k) <==> keys.contains(k)
                && !others.contains(k),
    decreases keys.len(),
{
    let f = absent_from(keys, others);
    if keys.len() > 0 {
        let before = absent_from(keys.drop_last(), others);
        law_fetch_reports_gone(keys.drop_last(), others);
        assert forall|k: Seq<char>| #[trigger] f.contains(k) <==> keys.contains(k)
            && !others.contains(k) by {
            assert(before.contains(k) <==> keys.drop_last().contains(k) && !others.contains(k));
            if keys.contains(k) {
                let i = choose|i: int| 0 <= i < keys.len() && keys[i] == k;
                if i < keys.len() - 1 {
                    assert(keys.drop_last()[i] == k);
                }
            }
            if keys.drop_last().contains(k) {
                let i = choose|i: int|
                    0 <= i < keys.drop_last().len() && keys.drop_last()[i] == k;
                assert(keys[i] == k);
            }
            if !others.contains(keys.last()) {
                if before.contains(k) {
                    let i = choose|i: int| 0 <= i < before.len() && before[i] == k;
                    assert(f[i] == k);
                }
                if k == keys.last() {
                    assert(f[before.len() as int] == k);
                    assert(keys[keys.len() - 1] == k);
                }
                if f.contains(k) {
                    let i = choose|i: int| 0 <= i < f.len() && f[i] == k;
                    if i < before.len() {
                        assert(before[i] == k);
                    } else {
                        assert(keys[keys.len() - 1] == k);
                    }
                }
            }
        }
    }
}

/// Whether a session walks over the entries of its table, each under its own key.
pub open spec fn session_ok(s: SessionView) -> bool {
    &&& distinct(s.entries)
    &&& s.keys == keys_of(s.entries)
    &&& 0 <= s.index <= s.keys.len()
}

/// A round of a session leaves the keys of the table and their order alone, and stays within them.
pub proof fn law_session_keeps_keys(s: SessionView, input: Seq<char>)
    requires
        session_ok(s),
        s.index < s.keys.len(),
    ensures
        session_ok(s.after(input).0),
        s.after(input).0.keys == s.keys,
        s.after(input).0.references == s.references,
{
    lemma_current(s);
    law_insert(s.entries, s.key(), input);
    law_insert(s.entries, s.key(), reference_in(s.references, s.key()));
}

/// The key that is shown stands in the table.
pub(crate) proof fn lemma_current(s: SessionView)
    requires
        session_ok(s),
        s.index < s.keys.len(),
    ensures
        has_key(s.entries, s.key()),
{
    assert(s.entries[s.index].0 == s.keys[s.index]);
}

/// A round of a session changes at most the entry that is shown: every other key keeps its text.
pub proof fn law_session_changes_one_entry(s: SessionView, input: Seq<char>, other: Seq<char>)
    requires
        session_ok(s),
        s.index < s.keys.len(),
        other != s.key(),
    ensures
        lookup(s.after(input).0.entries, other) == lookup(s.entries, other),
{
    law_insert(s.entries, s.key(), input);
    law_insert(s.entries, s.key(), reference_in(s.references, s.key()));
}

/// What is typed becomes the text of the entry that is shown, and the session goes on to the next.
pub proof fn law_session_stores_input(s: SessionView, input: Seq<char>)
    requires
        session_ok(s),
        s.index < s.keys.len(),
        input.len() > 0,
        input != ":q"@,
        input != ":n"@,
        input != ":p"@,
        input != "="@,
    ensures
        lookup(s.after(input).0.entries, s.key()) == Some(input),
        s.after(input).0.index == s.index + 1,
        s.after(input).0.changed == s.changed + 1,
{
    law_insert(s.entries, s.key(), input);
}

/// The session after all of `inputs`, up to the one that ends it or the end of the entries.
pub open spec fn session_after(s: SessionView, inputs: Seq<Seq<char>>) -> SessionView
    decreases inputs.len(),
{
    if inputs.len() == 0 || s.index >= s.keys.len() {
        s
    } else {
        let (next, round) = s.after(inputs.first());
        if round == Round::Quit {
            next
        } else {
            session_after(next, inputs.drop_first())
        }
    }
}

/// A session that set no text leaves the table as it was; so a file whose session counts no change
/// needs not be written.
pub proof fn law_unchanged_session(s: SessionView, inputs: Seq<Seq<char>>)
    ensures
        session_after(s, inputs).changed >= s.changed,
        session_after(s, inputs).changed == s.changed ==> session_after(s, inputs).entries
            == s.entries,
    decreases inputs.len(),
{
    if inputs.len() > 0 && s.index < s.keys.len() {
        let (next, round) = s.after(inputs.first());
        if round != Round::Quit {
            law_unchanged_session(next, inputs.drop_first());
        }
    }
}

/// At how many places two lists of entries differ.
pub open spec fn differing(a: Seq<(Seq<char>, Seq<char>)>, b: Seq<(Seq<char>, Seq<char>)>) -> nat
    recommends
        a.len() == b.len(),
    decreases a.len(),
{
    if a.len() == 0 {
        0
    } else {
        differing(a.drop_last(), b.drop_last()) + if a.last() == b.last() {
            0nat
        } else {
            1nat
        }
    }
}

proof fn lemma_differing_same(a: Seq<(Seq<char>, Seq<char>)>)
    ensures
        differing(a, a) == 0,
    decreases a.len(),
{
    if a.len() > 0 {
        lemma_differing_same(a.drop_last());
    }
}

proof fn lemma_differing_update(
    a: Seq<(Seq<char>, Seq<char>)>,
    at: int,
    entry: (Seq<char>, Seq<char>),
)
    requires
        0 <= at < a.len(),
    ensures
        differing(a, a.update(at, entry)) <= 1,
    decreases a.len(),
{
    let short = a.drop_last();
    if at == a.len() - 1 {
        assert(a.update(at, entry).drop_last() =~= short);
        lemma_differing_same(short);
    } else {
        assert(a.update(at, entry).drop_last() =~= short.update(at, entry));
        lemma_differing_update(short, at, entry);
    }
}

proof fn lemma_differing_chain(
    a: Seq<(Seq<char>, Seq<char>)>,
    b: Seq<(Seq<char>, Seq<char>)>,
    c: Seq<(Seq<char>, Seq<char>)>,
)
    requires
        a.len() == b.len() == c.len(),
    ensures
        differing(a, c) <= differing(a, b) + differing(b, c),
    decreases a.len(),
{
    if a.len() > 0 {
        lemma_differing_chain(a.drop_last(), b.drop_last(), c.drop_last());
    }
}

/// A session changes no more entries than it counts.
pub proof fn law_session_counts_changes(s: SessionView, inputs: Seq<Seq<char>>)
    requires
        session_ok(s),
    ensures
        session_after(s, inputs).entries.len() == s.entries.len(),
        differing(s.entries, session_after(s, inputs).entries) <= session_after(s, inputs).changed
            - s.changed,
    decreases inputs.len(),
{
    lemma_differing_same(s.entries);
    if inputs.len() > 0 && s.index < s.keys.len() {
        let input = inputs.first();
        let (next, round) = s.after(input);
        lemma_current(s);
        lemma_position(s.entries, s.key());
        let at = position(s.entries, s.key());
        lemma_differing_update(s.entries, at, (s.key(), input));
        lemma_differing_update(
            s.entries,
            at,
            (s.key(), reference_in(s.references, s.key())),
        );
        assert(differing(s.entries, next.entries) <= next.changed - s.changed);
        if round != Round::Quit {
            law_session_keeps_keys(s, input);
            law_session_counts_changes(next, inputs.drop_first());
            lemma_differing_chain(
                s.entries,
                next.entries,
                session_after(next, inputs.drop_first()).entries,
            );
        }
    }
}

/// Over a whole session the table keeps its keys and their order, and the reference texts stay.
pub proof fn law_whole_session_keeps_keys(s: SessionView, inputs: Seq<Seq<char>>)
    requires
        session_ok(s),
    ensures
        session_ok(session_after(s, inputs)),
        keys_of(session_after(s, inputs).entries) == keys_of(s.entries),
        session_after(s, inputs).keys == s.keys,
        session_after(s, inputs).references == s.references,
    decreases inputs.len(),
{
    if inputs.len() > 0 && s.index < s.keys.len() {
        let (next, round) = s.after(inputs.first());
        law_session_keeps_keys(s, inputs.first());
        if round != Round::Quit {
            law_whole_session_keeps_keys(next, inputs.drop_first());
        }
    }
}

/// The entry that a session is sent to still needs a text, and all before it have one; where it is
/// sent nowhere, all have one.
pub proof fn law_first_untranslated(e: Seq<(Seq<char>, Seq<char>)>, keys: Seq<Seq<char>>)
    ensures
        match first_untranslated(e, keys) {
            Some(i) => 0 <= i < keys.len() && untranslated(e, keys[i]) && forall|k: int|
                0 <= k < i ==> !untranslated(e, #[trigger] keys[k]),
            None => forall|k: int| 0 <= k < keys.len() ==> !untranslated(e, #[trigger] keys[k]),
        },
    decreases keys.len(),
{
    if keys.len() > 0 {
        law_first_untranslated(e, keys.drop_last());
        match first_untranslated(e, keys.drop_last()) {
            Some(i) => {
                assert(keys.drop_last()[i] == keys[i]);
                assert forall|k: int| 0 <= k < i implies !untranslated(e, #[trigger] keys[k]) by {
                    assert(keys.drop_last()[k] == keys[k]);
                }
            },
            None => {
                assert forall|k: int| 0 <= k < keys.len() - 1 implies !untranslated(
                    e,
                    #[trigger] keys[k],
                ) by {
                    assert(keys.drop_last()[k] == keys[k]);
                }
            },
        }
    }
}

/// A token of the environment goes before that of the settings, and a token is never blank.
pub proof fn law_token(variable: Option<Seq<char>>, stored: Option<Seq<char>>)
    ensures
        token_in(variable) is Some ==> effective_token(variable, stored) == token_in(variable),
        token_in(variable) is None ==> effective_token(variable, stored) == token_in(stored),
        effective_token(variable, stored) matches Some(t) ==> t.len() > 0 && trimmed(t) == t,
{
    if let Some(v) = variable {
        law_trim_twice(v);
    }
    if let Some(v) = stored {
        law_trim_twice(v);
    }
}

pub(crate) proof fn lemma_cut_start(s: Seq<char>, class: Class)
    ensures
        cut_start(s, class).len() == 0 || !class.has(cut_start(s, class).first()),
        cut_start(s, class).len() <= s.len(),
        cut_start(s, class) == s.skip(s.len() - cut_start(s, class).len()),
        forall|i: int| 0 <= i < s.len() - cut_start(s, class).len() ==> class.has(#[trigger] s[i]),
    decreases s.len(),
{
    if s.len() > 0 && class.has(s.first()) {
        let rest = s.drop_first();
        lemma_cut_start(rest, class);
        let n = s.len() - cut_start(s, class).len();
        assert(s.skip(n) =~= rest.skip(n - 1));
        assert forall|i: int| 0 <= i < n implies class.has(#[trigger] s[i]) by {
            if i > 0 {
                assert(rest[i - 1] == s[i]);
            }
        }
    } else {
        assert(s.skip(0) =~= s);
    }
}

pub(crate) proof fn lemma_cut_end(s: Seq<char>, class: Class)
    ensures
        cut_end(s, class).len() == 0 || !class.has(cut_end(s, class).last()),
        cut_end(s, class).len() <= s.len(),
        cut_end(s, class) == s.take(cut_end(s, class).len() as int),
        forall|i: int| cut_end(s, class).len() <= i < s.len() ==> class.has(#[trigger] s[i]),
    decreases s.len(),
{
    if s.len() > 0 && class.has(s.last()) {
        let rest = s.drop_last();
        lemma_cut_end(rest, class);
        let n = cut_end(s, class).len() as int;
        assert(s.take(n) =~= rest.take(n));
        assert forall|i: int| n <= i < s.len() implies class.has(#[trigger] s[i]) by {
            if i < s.len() - 1 {
                assert(rest[i] == s[i]);
            }
        }
    } else {
        assert(s.take(s.len() as int) =~= s);
    }
}

/// A trimmed text has no white space at its ends, and trimming it again changes nothing.
pub proof fn law_trim_twice(s: Seq<char>)
    ensures
        trimmed(trimmed(s)) == trimmed(s),
        trimmed(s).len() > 0 ==> !whitespace(trimmed(s).first()) && !whitespace(trimmed(s).last()),
{
    let a = cut_start(s, Class::Space);
    let b = cut_end(a, Class::Space);
    lemma_cut_start(s, Class::Space);
    lemma_cut_end(a, Class::Space);
    if b.len() > 0 {
        assert(b.first() == a.first());
    }
}

/// A text is blank where, and only where, all its characters are white space.
pub proof fn law_blank(s: Seq<char>)
    ensures
        blank(s) <==> forall|i: int| 0 <= i < s.len() ==> whitespace(#[trigger] s[i]),
{
    let a = cut_start(s, Class::Space);
    let b = cut_end(a, Class::Space);
    lemma_cut_start(s, Class::Space);
    lemma_cut_end(a, Class::Space);
    let n = s.len() - a.len();
    if blank(s) {
        assert forall|i: int| 0 <= i < s.len() implies whitespace(#[trigger] s[i]) by {
            if i < n {
                assert(Class::Space.has(s[i]));
            } else {
                assert(a[i - n] == s[i]);
                assert(Class::Space.has(a[i - n]));
            }
        }
    } else {
        assert(b.last() == a[b.len() - 1]);
        assert(a[b.len() - 1] == s[n + b.len() - 1]);
        assert(!whitespace(s[n + b.len() - 1]));
    }
}

/// Cleaning what was typed a second time changes nothing.
pub proof fn law_normalize_twice(raw: Seq<char>)
    ensures
        normalized(normalized(raw)) == normalized(raw),
{
    let a = cut_start(raw, Class::Mark);
    let b = cut_end(a, Class::LineEnd);
    lemma_cut_start(raw, Class::Mark);
    lemma_cut_end(a, Class::LineEnd);
    if b.len() > 0 {
        assert(b.first() == a.first());
    }
}

/// After an upload of `text` as `content`, a read whose reply shows that content, in whatever lines
/// the service breaks it, brings `text`; and that counts as up to date, so that a second upload
/// makes no commit.
pub proof fn law_upload_reads_back(
    content: Seq<char>,
    text: Seq<char>,
    stored: Seq<char>,
    status: i32,
    body: Seq<char>,
    document: JsonTree,
)
    requires
        reads_back(content, text),
        200 <= status < 300,
        reads_as(body, document),
        field(document, "content"@) == Some(JsonTree::Text(stored)),
        visible(stored) == content,
    ensures
        match read_in(ReplyView::Text(status, body)) {
            Ok(Some(file)) => file.text == text && file.sha == text_of(field(document, "sha"@))
                && same_content(file.text, text),
            _ => false,
        },
{
}

/// A table that was uploaded comes down again as the file that was uploaded, entry for entry.
pub proof fn law_pull_after_push(
    e: Seq<(Seq<char>, Seq<char>)>,
    content: Seq<char>,
    stored: Seq<char>,
    status: i32,
    body: Seq<char>,
    document: JsonTree,
)
    requires
        loads_as(file_text(e), e),
        reads_back(content, file_text(e)),
        200 <= status < 300,
        reads_as(body, document),
        field(document, "content"@) == Some(JsonTree::Text(stored)),
        visible(stored) == content,
    ensures
        match read_in(ReplyView::Text(status, body)) {
            Ok(Some(file)) => pulled(file.text) == Ok::<(Seq<char>, nat), Seq<char>>(
                (file_text(e), e.len()),
            ) && loads_as(file.text, e),
            _ => false,
        },
{
    law_upload_reads_back(content, file_text(e), stored, status, body, document);
}

/// The file that an upload of the translations writes is the one at the raw address, from which the
/// mods read.
pub proof fn law_raw_address(repo: Seq<char>, branch: Seq<char>, mod_id: Seq<char>)
    ensures
        raw_address(repo, branch, mod_id) == "https://raw.githubusercontent.com/"@ + repo + "/"@
            + branch + "/"@ + remote_path_of(mod_id, Kind::Chinese),
{
    reveal_strlit(".ChineseSimplified.json");
    reveal_strlit("ChineseSimplified");
    reveal_strlit(".json");
    reveal_strlit(".");
    assert(".ChineseSimplified.json"@ =~= "."@ + "ChineseSimplified"@ + ".json"@);
    assert(raw_address(repo, branch, mod_id) =~= "https://raw.githubusercontent.com/"@ + repo
        + "/"@ + branch + "/"@ + remote_path_of(mod_id, Kind::Chinese));
}

/// There is no file if and only if the status of the reply says so, whatever its text; every other
/// reply that failed is an error.
pub proof fn law_missing_file(reply: ReplyView)
    ensures
        read_in(reply) == Ok::<Option<RemoteView>, ReadFault>(None) <==> says_missing(reply),
        text_in(reply) is Err && !says_missing(reply) ==> read_in(reply) is Err,
{
}

proof fn lemma_lines_have_no_feed(s: Seq<char>)
    ensures
        forall|i: int|
            0 <= i < lines_of(s).len() ==> !(#[trigger] lines_of(s)[i]).contains('\n'),
    decreases s.len(),
{
    if s.len() > 0 {
        lemma_next_index(s, '\n', 0);
        let end = next_index(s, '\n', 0);
        if end < s.len() {
            let rest = lines_of(s.skip(end + 1));
            lemma_lines_have_no_feed(s.skip(end + 1));
            assert forall|i: int| 0 <= i < lines_of(s).len() implies !(
            #[trigger] lines_of(s)[i]).contains('\n') by {
                if i > 0 {
                    assert(lines_of(s)[i] == rest[i - 1]);
                } else {
                    let line = without_return(s.take(end));
                    assert forall|k: int| 0 <= k < line.len() implies line[k] != '\n' by {
                        assert(line[k] == s[k]);
                    }
                }
            }
        }
    }
}

proof fn lemma_solid_has_no_feed(parts: Seq<Seq<char>>)
    requires
        forall|i: int| 0 <= i < parts.len() ==> !(#[trigger] parts[i]).contains('\n'),
    ensures
        forall|i: int|
            0 <= i < solid(parts).len() ==> !(#[trigger] solid(parts)[i]).contains('\n'),
    decreases parts.len(),
{
    if parts.len() > 0 {
        let before = parts.drop_last();
        assert forall|i: int| 0 <= i < before.len() implies !(#[trigger] before[i]).contains(
            '\n',
        ) by {
            assert(before[i] == parts[i]);
        }
        lemma_solid_has_no_feed(before);
        let last = parts.last();
        let a = cut_start(last, Class::Space);
        let b = cut_end(a, Class::Space);
        lemma_cut_start(last, Class::Space);
        lemma_cut_end(a, Class::Space);
        assert(parts[parts.len() - 1] == last);
        assert(!b.contains('\n')) by {
            assert forall|k: int| 0 <= k < b.len() implies b[k] != '\n' by {
                assert(b[k] == last[last.len() - a.len() + k]);
                assert(last.contains(b[k]));
            }
        }
        assert forall|i: int| 0 <= i < solid(parts).len() implies !(
        #[trigger] solid(parts)[i]).contains('\n') by {
            if i < solid(before).len() {
                assert(solid(parts)[i] == solid(before)[i]);
            }
        }
    }
}

proof fn lemma_joined_has_no_feed(parts: Seq<Seq<char>>, sep: Seq<char>)
    requires
        forall|i: int| 0 <= i < parts.len() ==> !(#[trigger] parts[i]).contains('\n'),
        !sep.contains('\n'),
    ensures
        !joined(parts, sep).contains('\n'),
    decreases parts.len(),
{
    if parts.len() > 1 {
        let before = parts.drop_last();
        assert forall|i: int| 0 <= i < before.len() implies !(#[trigger] before[i]).contains(
            '\n',
        ) by {
            assert(before[i] == parts[i]);
        }
        lemma_joined_has_no_feed(before, sep);
        let head = joined(before, sep);
        let whole = head + sep + parts.last();
        assert(parts[parts.len() - 1] == parts.last());
        assert forall|k: int| 0 <= k < whole.len() implies whole[k] != '\n' by {
            if k < head.len() {
                assert(head.contains(whole[k])) by {
                    assert(head[k] == whole[k]);
                }
            } else if k < head.len() + sep.len() {
                assert(sep.contains(whole[k])) by {
                    assert(sep[k - head.len()] == whole[k]);
                }
            } else {
                assert(parts.last().contains(whole[k])) by {
                    assert(parts.last()[k - head.len() - sep.len()] == whole[k]);
                }
            }
        }
    } else if parts.len() == 1 {
        assert(!parts[0].contains('\n'));
    }
}

/// Whether `s` is a text without white space at its ends, and not an empty one.
pub open spec fn tight(s: Seq<char>) -> bool {
    s.len() > 0 && !whitespace(s.first()) && !whitespace(s.last())
}

pub(crate) proof fn lemma_solid_is_tight(parts: Seq<Seq<char>>)
    ensures
        forall|i: int| 0 <= i < solid(parts).len() ==> tight(#[trigger] solid(parts)[i]),
    decreases parts.len(),
{
    if parts.len() > 0 {
        let before = solid(parts.drop_last());
        lemma_solid_is_tight(parts.drop_last());
        law_trim_twice(parts.last());
        assert forall|i: int| 0 <= i < solid(parts).len() implies tight(
            #[trigger] solid(parts)[i],
        ) by {
            if i < before.len() {
                assert(solid(parts)[i] == before[i]);
            }
        }
    }
}

pub(crate) proof fn lemma_joined_is_tight(parts: Seq<Seq<char>>, sep: Seq<char>)
    requires
        parts.len() > 0,
        forall|i: int| 0 <= i < parts.len() ==> tight(#[trigger] parts[i]),
    ensures
        tight(joined(parts, sep)),
    decreases parts.len(),
{
    assert(tight(parts[parts.len() - 1]));
    if parts.len() > 1 {
        let before = parts.drop_last();
        assert forall|i: int| 0 <= i < before.len() implies tight(#[trigger] before[i]) by {
            assert(before[i] == parts[i]);
        }
        lemma_joined_is_tight(before, sep);
        let whole = joined(before, sep) + sep + parts.last();
        assert(whole.first() == joined(before, sep).first());
        assert(whole.last() == parts.last().last());
    }
}

/// A text put into one line holds no line feed and no white space at its ends, and putting it into
/// one line again changes nothing.
pub proof fn law_one_line(text: Seq<char>)
    ensures
        !in_one_line(text).contains('\n'),
        trimmed(in_one_line(text)) == in_one_line(text),
        in_one_line(in_one_line(text)) == in_one_line(text),
{
    reveal_strlit(" ⏎ ");
    let parts = solid(lines_of(text));
    let line = in_one_line(text);
    lemma_lines_have_no_feed(text);
    lemma_solid_has_no_feed(lines_of(text));
    assert(!" ⏎ "@.contains('\n')) by {
        assert forall|k: int| 0 <= k < " ⏎ "@.len() implies " ⏎ "@[k] != '\n' by {}
    }
    lemma_joined_has_no_feed(parts, " ⏎ "@);
    lemma_solid_is_tight(lines_of(text));
    if parts.len() > 0 {
        lemma_joined_is_tight(parts, " ⏎ "@);
        lemma_next_index(line, '\n', 0);
        assert(line.contains(line[next_index(line, '\n', 0)]) || next_index(line, '\n', 0)
            == line.len());
        assert(lines_of(line) == seq![line]);
        assert(seq![line].drop_last() =~= Seq::<Seq<char>>::empty());
        assert(solid(seq![line].drop_last()).len() == 0);
        assert(solid(seq![line]) =~= seq![line]);
    }
}

/// Every row of a spreadsheet has a key that is not blank.
pub proof fn law_rows_have_keys(names: Seq<Seq<char>>, rows: Seq<Seq<Seq<char>>>)
    ensures
        forall|i: int|
            0 <= i < keyed_rows(names, rows).len() ==> !blank(
                (#[trigger] keyed_rows(names, rows)[i]).key,
            ),
    decreases rows.len(),
{
    if rows.len() > 0 {
        let before = keyed_rows(names, rows.drop_last());
        let f = keyed_rows(names, rows);
        law_rows_have_keys(names, rows.drop_last());
        assert forall|i: int| 0 <= i < f.len() implies !blank((#[trigger] f[i]).key) by {
            if i < before.len() {
                assert(f[i] == before[i]);
            }
        }
    }
}

/// No language column is without a name.
pub proof fn law_languages_are_named(names: Seq<Seq<char>>)
    ensures
        forall|i: int| 0 <= i < named(names).len() ==> !blank(#[trigger] named(names)[i]),
        forall|n: Seq<char>| named(names).contains(n) <==> names.contains(n) && !blank(n),
    decreases names.len(),
{
    if names.len() > 0 {
        let before = named(names.drop_last());
        let f = named(names);
        law_languages_are_named(names.drop_last());
        assert forall|n: Seq<char>| f.contains(n) <==> names.contains(n) && !blank(n) by {
            assert(before.contains(n) <==> names.drop_last().contains(n) && !blank(n));
            if names.contains(n) {
                let i = choose|i: int| 0 <= i < names.len() && names[i] == n;
                if i < names.len() - 1 {
                    assert(names.drop_last()[i] == n);
                }
            }
            if names.drop_last().contains(n) {
                let i = choose|i: int|
                    0 <= i < names.drop_last().len() && names.drop_last()[i] == n;
                assert(names[i] == n);
            }
            assert(names[names.len() - 1] == names.last());
            if !blank(names.last()) {
                assert(f[before.len() as int] == names.last());
                if before.contains(n) {
                    let i = choose|i: int| 0 <= i < before.len() && before[i] == n;
                    assert(f[i] == n);
                }
                if f.contains(n) {
                    let i = choose|i: int| 0 <= i < f.len() && f[i] == n;
                    if i < before.len() {
                        assert(before[i] == n);
                    }
                }
            }
        }
    }
}

/// A row has exactly one text for each language of the spreadsheet, and no other.
pub proof fn law_row_has_languages(names: Seq<Seq<char>>, row: Seq<Seq<char>>, n: int)
    requires
        0 <= n <= names.len(),
    ensures
        distinct(row_values(names, row, n)),
        forall|name: Seq<char>|
            has_key(row_values(names, row, n), name) <==> named(names.take(n)).contains(name),
    decreases n,
{
    let f = row_values(names, row, n);
    law_languages_are_named(names.take(n));
    if n > 0 {
        let short = names.take(n - 1);
        let long = names.take(n);
        let before = row_values(names, row, n - 1);
        law_row_has_languages(names, row, n - 1);
        law_languages_are_named(names.take(n - 1));
        law_insert(before, names[n - 1], text_at(row, n));
        assert(names.take(n).drop_last() =~= names.take(n - 1));
        assert forall|name: Seq<char>| has_key(f, name) <==> named(names.take(n)).contains(
            name,
        ) by {
            assert(has_key(before, name) <==> named(names.take(n - 1)).contains(name));
            if short.contains(name) {
                let i = choose|i: int| 0 <= i < short.len() && short[i] == name;
                assert(long[i] == name);
            }
            if long.contains(name) {
                let i = choose|i: int| 0 <= i < long.len() && long[i] == name;
                if i < n - 1 {
                    assert(short[i] == name);
                }
            }
            assert(long[n - 1] == names[n - 1]);
            if !blank(names[n - 1]) {
                if name != names[n - 1] {
                    assert(lookup(f, name) == lookup(before, name));
                } else {
                    assert(lookup(f, name) is Some);
                }
            }
        }
    } else {
        assert(names.take(0).len() == 0);
    }
}

/// The languages of a row stand in the order of the columns, each where it first occurs; so they
/// are the same in every row.
pub proof fn law_row_languages_in_order(names: Seq<Seq<char>>, row: Seq<Seq<char>>, n: int)
    requires
        0 <= n <= names.len(),
    ensures
        keys_of(row_values(names, row, n)) == without_repeats(named(names.take(n))),
    decreases n,
{
    if n > 0 {
        let before = row_values(names, row, n - 1);
        let short = named(names.take(n - 1));
        law_row_languages_in_order(names, row, n - 1);
        law_row_has_languages(names, row, n - 1);
        assert(names.take(n).drop_last() =~= names.take(n - 1));
        if !blank(names[n - 1]) {
            law_insert(before, names[n - 1], text_at(row, n));
            assert(has_key(before, names[n - 1]) <==> short.contains(names[n - 1]));
            assert(short.push(names[n - 1]).drop_last() =~= short);
        }
    } else {
        assert(names.take(0).len() == 0);
        assert(keys_of(row_values(names, row, n)) =~= without_repeats(named(names.take(n))));
    }
}

/// Every row of a spreadsheet has the same languages in the same order: those of the spreadsheet,
/// without later repeats.
pub proof fn law_rows_share_languages(names: Seq<Seq<char>>, rows: Seq<Seq<Seq<char>>>)
    ensures
        forall|i: int|
            0 <= i < keyed_rows(names, rows).len() ==> keys_of(
                (#[trigger] keyed_rows(names, rows)[i]).values,
            ) == without_repeats(named(names)),
    decreases rows.len(),
{
    if rows.len() > 0 {
        let before = keyed_rows(names, rows.drop_last());
        let f = keyed_rows(names, rows);
        law_rows_share_languages(names, rows.drop_last());
        law_row_languages_in_order(names, rows.last(), names.len() as int);
        assert(names.take(names.len() as int) =~= names);
        assert forall|i: int| 0 <= i < f.len() implies keys_of((#[trigger] f[i]).values)
            == without_repeats(named(names)) by {
            if i < before.len() {
                assert(f[i] == before[i]);
            }
        }
    }
}

pub(crate) proof fn lemma_first_place(s: Seq<char>, c: char)
    ensures
        match first_place(s, c) {
            Some(i) => 0 <= i < s.len() && s[i] == c && forall|k: int|
                0 <= k < i ==> #[trigger] s[k] != c,
            None => forall|k: int| 0 <= k < s.len() ==> #[trigger] s[k] != c,
        },
    decreases s.len(),
{
    if s.len() > 0 {
        let short = s.drop_last();
        lemma_first_place(short, c);
        match first_place(short, c) {
            Some(i) => {
                assert(short[i] == s[i]);
                assert forall|k: int| 0 <= k < i implies #[trigger] s[k] != c by {
                    assert(short[k] == s[k]);
                }
            },
            None => {
                assert forall|k: int| 0 <= k < s.len() - 1 implies #[trigger] s[k] != c by {
                    assert(short[k] == s[k]);
                }
            },
        }
    }
}

pub(crate) proof fn lemma_last_place(s: Seq<char>, c: char)
    ensures
        match last_place(s, c) {
            Some(i) => 0 <= i < s.len() && s[i] == c && forall|k: int|
                i < k < s.len() ==> #[trigger] s[k] != c,
            None => forall|k: int| 0 <= k < s.len() ==> #[trigger] s[k] != c,
        },
    decreases s.len(),
{
    if s.len() > 0 && s.last() != c {
        let short = s.drop_last();
        lemma_last_place(short, c);
        assert forall|k: int| 0 <= k < s.len() - 1 implies #[trigger] s[k] == short[k] by {}
        if let Some(i) = last_place(short, c) {
            assert(short[i] == s[i]);
        }
    }
}

/// What stands before the document in a reply does not matter if it holds no opening brace, nor
/// what stands after it if it holds no closing one.
pub proof fn law_wrapping_does_not_matter(
    before: Seq<char>,
    document: Seq<char>,
    after: Seq<char>,
    mod_id: Seq<char>,
)
    requires
        !before.contains('{'),
        !after.contains('}'),
        document.contains('{'),
        document.contains('}'),
        braces_in_order(document),
    ensures
        braces_in_order(before + document + after),
        sheet_in_reply(before + document + after, mod_id) == sheet_in_reply(document, mod_id),
{
    let whole = before + document + after;
    let n = before.len();
    lemma_first_place(document, '{');
    lemma_last_place(document, '}');
    lemma_first_place(whole, '{');
    lemma_last_place(whole, '}');
    let start = first_place(document, '{')->0;
    let end = last_place(document, '}')->0;
    assert(first_place(document, '{') is Some);
    assert(last_place(document, '}') is Some);
    assert(whole[n + start] == '{');
    assert(whole[n + end] == '}');
    assert forall|k: int| 0 <= k < n + start implies whole[k] != '{' by {
        if k < n {
            assert(before[k] == whole[k]);
        } else {
            assert(document[k - n] == whole[k]);
        }
    }
    assert forall|k: int| n + end < k < whole.len() implies whole[k] != '}' by {
        if k < n + document.len() {
            assert(document[k - n] == whole[k]);
        } else {
            assert(after[k - n - document.len()] == whole[k]);
        }
    }
    assert(first_place(whole, '{') == Some(n + start));
    assert(last_place(whole, '}') == Some(n + end));
    assert(whole.subrange(n + start, n + end + 1) =~= document.subrange(start, end + 1));
}

/// The reference text of a row is one of its texts, and it is empty only where all are. An English
/// text that is not empty is the reference text.
pub proof fn law_reference(values: Seq<(Seq<char>, Seq<char>)>)
    requires
        distinct(values),
    ensures
        reference_text(values).len() == 0 ==> forall|i: int|
            0 <= i < values.len() ==> (#[trigger] values[i]).1.len() == 0,
        reference_text(values).len() > 0 ==> exists|i: int|
            0 <= i < values.len() && (#[trigger] values[i]).1 == reference_text(values),
        lookup(values, "English"@) matches Some(text) ==> text.len() > 0 ==> reference_text(values)
            == text,
{
    lemma_first_text(values);
    if has_key(values, "English"@) {
        lemma_position(values, "English"@);
        assert(lookup(values, "English"@) == Some(values[position(values, "English"@)].1));
    }
}

proof fn lemma_first_text(e: Seq<(Seq<char>, Seq<char>)>)
    ensures
        first_text(e).len() == 0 ==> forall|i: int|
            0 <= i < e.len() ==> (#[trigger] e[i]).1.len() == 0,
        first_text(e).len() > 0 ==> exists|i: int|
            0 <= i < e.len() && (#[trigger] e[i]).1 == first_text(e),
    decreases e.len(),
{
    if e.len() > 0 {
        let rest = e.drop_first();
        lemma_first_text(rest);
        if e.first().1.len() > 0 {
            assert(e[0].1 == first_text(e));
        } else if first_text(e).len() == 0 {
            assert forall|i: int| 0 <= i < e.len() implies (#[trigger] e[i]).1.len() == 0 by {
                if i > 0 {
                    assert(rest[i - 1] == e[i]);
                }
            }
        } else {
            let i = choose|i: int| 0 <= i < rest.len() && (#[trigger] rest[i]).1 == first_text(e);
            assert(e[i + 1].1 == first_text(e));
        }
    }
}

/// A number written in decimal reads back as the number.
pub proof fn law_number_reads_back(n: nat)
    ensures
        number_in(decimal(n)) == Some(n),
        decimal(n).len() > 0,
{
    lemma_decimal(n);
}

proof fn lemma_decimal(n: nat)
    ensures
        decimal(n).len() > 0,
        all_digits(decimal(n)),
        digits_value(decimal(n)) == n,
        unsigned(decimal(n)) == decimal(n),
    decreases n,
{
    let s = decimal(n);
    if n < 10 {
        assert(s.drop_last().len() == 0);
        assert(digits_value(s.drop_last()) == 0);
    } else {
        lemma_decimal(n / 10);
        assert(s.drop_last() =~= decimal(n / 10));
        assert forall|i: int| 0 <= i < s.len() implies is_digit(#[trigger] s[i]) by {
            if i < s.len() - 1 {
                assert(s[i] == decimal(n / 10)[i]);
            }
        }
    }
    assert(is_digit(s[0]));
}

/// The number under which a mod is listed picks that mod, and so does its name.
pub proof fn law_pick_by_number_or_name(i: int)
    requires
        0 <= i < all_ids().len(),
    ensures
        pick_of(decimal((i + 1) as nat)) == PickView::Mod(all_ids()[i]),
        pick_of(all_ids()[i]) == PickView::Mod(all_ids()[i]),
{
    law_number_reads_back((i + 1) as nat);
    reveal_strlit("JALib");
    reveal_strlit("JipperResourcePack");
    reveal_strlit("BetterCalibration");
    let id = all_ids()[i];
    assert(id == catalogue()[i].id);
    assert(id[0] == 'J' || id[0] == 'B');
    assert(unsigned(id)[0] == id[0]);
    assert(!is_digit(unsigned(id)[0]));
    assert(all_ids().contains(id));
}

/// Every mod of the catalogue is found under its name, and the mods that can be fetched are those
/// with a spreadsheet.
pub proof fn law_catalogue(i: int)
    requires
        0 <= i < catalogue().len(),
    ensures
        find_in(catalogue(), catalogue()[i].id) == Some(catalogue()[i]),
        sheet_ids(catalogue()).contains(catalogue()[i].id) <==> catalogue()[i].source is Sheet,
{
    reveal_strlit("JALib");
    reveal_strlit("JipperResourcePack");
    reveal_strlit("BetterCalibration");
    let c = catalogue();
    assert(c[0].id.len() == 5);
    assert(c[1].id.len() == 18);
    assert(c[2].id.len() == 17);
    reveal_with_fuel(find_in, 4);
    reveal_with_fuel(sheet_ids, 4);
    assert(c.drop_last().drop_last() =~= seq![c[0]]);
    assert(c.drop_last().drop_last().drop_last() =~= Seq::<ModView>::empty());
    assert(sheet_ids(c) =~= seq![c[0].id, c[1].id]);
    assert(sheet_ids(c)[0] == c[0].id);
    assert(sheet_ids(c)[1] == c[1].id);
}

/// Setting a text that is not blank where none or a blank one was set counts as one more
/// translated entry; no count exceeds the number of entries.
pub proof fn law_progress(e: Seq<(Seq<char>, Seq<char>)>, at: int, text: Seq<char>)
    requires
        0 <= at < e.len(),
        blank(e[at].1),
        !blank(text),
    ensures
        translated(e.update(at, (e[at].0, text))) == translated(e) + 1,
        translated(e) < e.len(),
    decreases e.len(),
{
    let f = e.update(at, (e[at].0, text));
    lemma_translated_bound(e.drop_last());
    if at == e.len() - 1 {
        assert(f.drop_last() =~= e.drop_last());
    } else {
        law_progress(e.drop_last(), at, text);
        assert(f.drop_last() =~= e.drop_last().update(at, (e[at].0, text)));
        assert(f.last() == e.last());
    }
}

proof fn lemma_translated_bound(e: Seq<(Seq<char>, Seq<char>)>)
    ensures
        translated(e) <= e.len(),
    decreases e.len(),
{
    if e.len() > 0 {
        lemma_translated_bound(e.drop_last());
    }
}

/// The text of a row in a language is that of its column. Of two columns with one name, the later
/// counts.
pub proof fn law_row_text(names: Seq<Seq<char>>, row: Seq<Seq<char>>, n: int, column: int)
    requires
        0 <= column < n <= names.len(),
        !blank(names[column]),
        forall|k: int| column < k < n ==> #[trigger] names[k] != names[column],
    ensures
        lookup(row_values(names, row, n), names[column]) == Some(text_at(row, column + 1)),
    decreases n,
{
    let before = row_values(names, row, n - 1);
    law_row_has_languages(names, row, n - 1);
    law_insert(before, names[n - 1], text_at(row, n));
    if column < n - 1 {
        law_row_text(names, row, n - 1, column);
        assert(names[n - 1] != names[column]);
    }
}

/// A fetch does not change how many entries are translated.
pub proof fn law_fetch_keeps_progress(e: Seq<(Seq<char>, Seq<char>)>, keys: Seq<Seq<char>>)
    ensures
        translated(extended(e, keys)) == translated(e),
    decreases keys.len(),
{
    if keys.len() > 0 {
        let before = extended(e, keys.drop_last());
        law_fetch_keeps_progress(e, keys.drop_last());
        if !has_key(before, keys.last()) {
            let f = extended(e, keys);
            assert(f.drop_last() =~= before);
            law_blank(f.last().1);
        }
    }
}

/// On a command line without options the first word is the command, and the others follow it.
pub proof fn law_plain_words(words: Seq<Seq<char>>)
    requires
        words.len() > 0,
        forall|i: int|
            0 <= i < words.len() ==> (#[trigger] words[i]).len() > 0 && words[i][0] != '-',
    ensures
        read_words(words, 0, ArgsView::empty()) == Ok::<ArgsView, ArgsStopView>(
            ArgsView { command: Some(words[0]), rest: words.skip(1), ..ArgsView::empty() },
        ),
{
    lemma_plain_word(words, 0);
    let first = ArgsView::empty().with_word(words[0]);
    lemma_plain_rest(words, 1, first);
    assert(first.rest + words.skip(1) =~= words.skip(1));
}

/// A word that does not start like an option is none.
proof fn lemma_plain_word(words: Seq<Seq<char>>, at: int)
    requires
        0 <= at < words.len(),
        words[at].len() > 0,
        words[at][0] != '-',
    ensures
        words[at] != "-h"@,
        words[at] != "--help"@,
        words[at] != "--base"@,
        setting_of(words[at]) is None,
{
    reveal_strlit("-h");
    reveal_strlit("--help");
    reveal_strlit("--base");
    reveal_strlit("--repo");
    reveal_strlit("--branch");
    reveal_strlit("--proxy");
    reveal_strlit("--data");
    reveal_strlit("--token");
}

proof fn lemma_plain_rest(words: Seq<Seq<char>>, at: int, args: ArgsView)
    requires
        0 <= at <= words.len(),
        args.command is Some,
        forall|i: int|
            0 <= i < words.len() ==> (#[trigger] words[i]).len() > 0 && words[i][0] != '-',
    ensures
        read_words(words, at, args) == Ok::<ArgsView, ArgsStopView>(
            ArgsView { rest: args.rest + words.skip(at), ..args },
        ),
    decreases words.len() - at,
{
    if at < words.len() {
        lemma_plain_word(words, at);
        lemma_plain_rest(words, at + 1, args.with_word(words[at]));
        assert(args.rest.push(words[at]) + words.skip(at + 1) =~= args.rest + words.skip(at));
    } else {
        assert(args.rest + words.skip(at) =~= args.rest);
    }
}

/// To name all mods, or for a fetch all with a spreadsheet, is the same as to name none.
pub proof fn law_default_mods()
    ensures
        chosen_mods(all_ids(), all_ids(), false) == chosen_mods(Seq::empty(), all_ids(), false),
        chosen_mods(sheet_ids(catalogue()), sheet_ids(catalogue()), true) == chosen_mods(
            Seq::empty(),
            sheet_ids(catalogue()),
            true,
        ),
{
    assert forall|i: int| 0 <= i < all_ids().len() implies find_in(
        catalogue(),
        #[trigger] all_ids()[i],
    ) is Some by {
        law_catalogue(i);
        assert(all_ids()[i] == catalogue()[i].id);
    }
    lemma_no_fault(all_ids(), false);
    let ids = sheet_ids(catalogue());
    lemma_sheet_ids(catalogue());
    assert forall|i: int| 0 <= i < ids.len() implies (find_in(
        catalogue(),
        #[trigger] ids[i],
    ) matches Some(def) && def.source is Sheet) by {
        assert(backed(catalogue(), ids[i]));
        let k = choose|k: int| 0 <= k < catalogue().len() && (#[trigger] catalogue()[k]).id
            == ids[i] && catalogue()[k].source is Sheet;
        law_catalogue(k);
    }
    lemma_no_fault(ids, true);
}

/// Every mod that is chosen for a fetch has a spreadsheet, and every mod that is chosen for anything
/// is one of the catalogue.
pub proof fn law_chosen_mods(names: Seq<Seq<char>>, i: int)
    ensures
        match chosen_mods(names, all_ids(), false) {
            Ok(mods) => 0 <= i < mods.len() ==> find_in(catalogue(), mods[i]) is Some,
            Err(_) => true,
        },
        match chosen_mods(names, sheet_ids(catalogue()), true) {
            Ok(mods) => 0 <= i < mods.len() ==> (find_in(catalogue(), mods[i]) matches Some(def)
                && def.source is Sheet),
            Err(_) => true,
        },
{
    if names.len() == 0 {
        if 0 <= i < all_ids().len() {
            law_catalogue(i);
            assert(all_ids()[i] == catalogue()[i].id);
        }
        let ids = sheet_ids(catalogue());
        lemma_sheet_ids(catalogue());
        if 0 <= i < ids.len() {
            assert(backed(catalogue(), ids[i]));
            let k = choose|k: int| 0 <= k < catalogue().len() && (#[trigger] catalogue()[k]).id
                == ids[i] && catalogue()[k].source is Sheet;
            law_catalogue(k);
        }
    } else if 0 <= i < names.len() {
        lemma_faultless(names, false, i);
        lemma_faultless(names, true, i);
    }
}

proof fn lemma_faultless(names: Seq<Seq<char>>, fetch: bool, i: int)
    requires
        0 <= i < names.len(),
    ensures
        first_fault(names, fetch) is None ==> (find_in(catalogue(), names[i]) matches Some(def) && (
        fetch ==> def.source is Sheet)),
    decreases names.len(),
{
    if i > 0 {
        lemma_faultless(names.drop_first(), fetch, i - 1);
        assert(names.drop_first()[i - 1] == names[i]);
    }
}

/// Whether `id` is the name of a mod of `ms` with a spreadsheet.
spec fn backed(ms: Seq<ModView>, id: Seq<char>) -> bool {
    exists|k: int| 0 <= k < ms.len() && (#[trigger] ms[k]).id == id && ms[k].source is Sheet
}

proof fn lemma_sheet_ids(ms: Seq<ModView>)
    ensures
        forall|i: int| 0 <= i < sheet_ids(ms).len() ==> backed(ms, #[trigger] sheet_ids(ms)[i]),
    decreases ms.len(),
{
    if ms.len() > 0 {
        let short = ms.drop_last();
        lemma_sheet_ids(short);
        assert forall|i: int| 0 <= i < sheet_ids(ms).len() implies backed(
            ms,
            #[trigger] sheet_ids(ms)[i],
        ) by {
            let id = sheet_ids(ms)[i];
            if i < sheet_ids(short).len() {
                assert(backed(short, sheet_ids(short)[i]));
                let k = choose|k: int|
                    0 <= k < short.len() && (#[trigger] short[k]).id == id
                        && short[k].source is Sheet;
                assert(ms[k] == short[k]);
            } else {
                assert(ms[ms.len() - 1].id == id);
            }
        }
    }
}

proof fn lemma_no_fault(names: Seq<Seq<char>>, fetch: bool)
    requires
        forall|i: int|
            0 <= i < names.len() ==> (find_in(catalogue(), #[trigger] names[i]) matches Some(def)
                && (fetch ==> def.source is Sheet)),
    ensures
        first_fault(names, fetch) is None,
    decreases names.len(),
{
    if names.len() > 0 {
        let rest = names.drop_first();
        assert(find_in(catalogue(), names[0]) is Some);
        assert forall|i: int| 0 <= i < rest.len() implies (find_in(
            catalogue(),
            #[trigger] rest[i],
        ) matches Some(def) && (fetch ==> def.source is Sheet)) by {
            assert(rest[i] == names[i + 1]);
        }
        lemma_no_fault(rest, fetch);
    }
}

/// Whether a line that is typed in the menu leaves it.
pub open spec fn leaves(line: Seq<char>) -> bool {
    let word = trimmed(line);
    word.len() == 0 || word == "0"@ || word == "q"@ || word == "Q"@
}

/// The menu over the lines from `at` on, of which `failed` says whether their commands failed: the
/// line at which it ends, or their number where the input ends first; and the commands that are
/// run.
pub open spec fn menu_run(lines: Seq<Seq<char>>, failed: Seq<bool>, at: int) -> (int, Seq<Command>)
    decreases lines.len() - at,
{
    if at >= lines.len() {
        (at, Seq::empty())
    } else {
        let choice = choice_of(trimmed(lines[at]));
        if step_of(choice, failed[at]) == MenuStep::End {
            (at, Seq::empty())
        } else {
            let (end, later) = menu_run(lines, failed, at + 1);
            match command_in(choice) {
                Some(command) => (end, seq![command] + later),
                None => (end, later),
            }
        }
    }
}

/// The menu is shown again and again until the user leaves it or the input ends, and no failure
/// changes that: it goes on over every line that does not leave it, whichever commands fail, and
/// runs the same commands.
pub proof fn law_menu(lines: Seq<Seq<char>>, failed: Seq<bool>, others: Seq<bool>, at: int)
    requires
        0 <= at <= lines.len(),
    ensures
        ({
            let (end, commands) = menu_run(lines, failed, at);
            &&& at <= end <= lines.len()
            &&& end < lines.len() ==> leaves(lines[end])
            &&& forall|k: int| at <= k < end ==> !leaves(#[trigger] lines[k])
            &&& commands.len() <= end - at
        }),
        menu_run(lines, failed, at) == menu_run(lines, others, at),
    decreases lines.len() - at,
{
    if at < lines.len() {
        law_choice(lines[at]);
        law_menu(lines, failed, others, at + 1);
    }
}

/// A line leaves the menu exactly where it is blank, a zero or a `q`. A line that is none of these
/// and no number of a command runs nothing, and the menu is shown again.
pub proof fn law_choice(line: Seq<char>)
    ensures
        choice_of(trimmed(line)) is Quit <==> leaves(line),
        forall|failed: bool| #[trigger]
            step_of(choice_of(trimmed(line)), failed) == MenuStep::End <==> leaves(line),
        choice_of(trimmed(line)) is Unknown ==> command_in(choice_of(trimmed(line))) is None
            && step_of(choice_of(trimmed(line)), false) == MenuStep::Again,
        command_in(choice_of(trimmed(line))) is None ==> leaves(line) || choice_of(
            trimmed(line),
        ) == ChoiceView::Unknown(trimmed(line)),
{
}

/// The settings that are written are those that the next start works with.
pub proof fn law_settings_are_kept(stored: Option<StateView>, args: ArgsView)
    ensures
        loaded(Some(overridden(loaded(stored), args))) == overridden(loaded(stored), args),
{
}

} // verus!
