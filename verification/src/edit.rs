//! Translating by hand: a session shows one entry after the other and takes what is typed.

use vstd::prelude::*;

use crate::table::{
    distinct, entries, inserted, keys, keys_of, lookup, table_get, table_insert, Table,
};
use crate::text::{
    blank, cut_end, cut_start, is_blank, join, joined, lines, lines_of, opt_view, same_text, trim, trim_end,
    trim_start, trimmed, views, Class,
};

verus! {

broadcast use vstd::seq::group_seq_axioms;

/// A session over the entries of a table.
pub struct Session<'a> {
    pub table: &'a mut Table,
    /// The reference texts, by key.
    pub references: Vec<(String, String)>,
    pub keys: Vec<String>,
    /// The entry that is shown.
    pub index: usize,
    /// How often a text was set.
    pub changed: usize,
}

/// A session as a mathematical value.
pub struct SessionView {
    pub entries: Seq<(Seq<char>, Seq<char>)>,
    pub references: Seq<(Seq<char>, Seq<char>)>,
    pub keys: Seq<Seq<char>>,
    pub index: int,
    pub changed: int,
}

/// The pairs as mathematical values.
pub open spec fn pair_views(pairs: Seq<(String, String)>) -> Seq<(Seq<char>, Seq<char>)> {
    pairs.map_values(|p: (String, String)| (p.0@, p.1@))
}

/// The text of the first pair with `key`; empty where there is none.
pub open spec fn reference_in(pairs: Seq<(Seq<char>, Seq<char>)>, key: Seq<char>) -> Seq<char>
    decreases pairs.len(),
{
    if pairs.len() == 0 {
        Seq::empty()
    } else if pairs.first().0 == key {
        pairs.first().1
    } else {
        reference_in(pairs.drop_first(), key)
    }
}

/// Whether `key` still needs a text: it has none, or a blank one.
pub open spec fn untranslated(e: Seq<(Seq<char>, Seq<char>)>, key: Seq<char>) -> bool {
    match lookup(e, key) {
        Some(text) => blank(text),
        None => true,
    }
}

/// The first of `keys` that still needs a text.
pub open spec fn first_untranslated(
    e: Seq<(Seq<char>, Seq<char>)>,
    keys: Seq<Seq<char>>,
) -> Option<int>
    decreases keys.len(),
{
    if keys.len() == 0 {
        None
    } else {
        match first_untranslated(e, keys.drop_last()) {
            Some(i) => Some(i),
            None => if untranslated(e, keys.last()) {
                Some(keys.len() - 1)
            } else {
                None
            },
        }
    }
}

/// What is typed, without byte order marks before it and line ends after it.
pub open spec fn normalized(raw: Seq<char>) -> Seq<char> {
    cut_end(cut_start(raw, Class::Mark), Class::LineEnd)
}

/// What is typed or passed on the command line, without byte order marks before it and line ends
/// after it.
pub fn normalize_input(raw: &str) -> (r: String)
    ensures
        r@ == normalized(raw@),
{
    trim_end(trim_start(raw, Class::Mark), Class::LineEnd).to_owned()
}

/// What came of a round.
#[derive(Debug, Clone, Copy, PartialEq, Eq, Structural)]
pub enum Round {
    /// The session goes on.
    Next,
    /// There was no text to take over; the session stays where it is.
    NoReference,
    /// The session is over.
    Quit,
}

impl SessionView {
    /// A session that starts at the first entry.
    pub open spec fn started(
        e: Seq<(Seq<char>, Seq<char>)>,
        references: Seq<(Seq<char>, Seq<char>)>,
    ) -> SessionView {
        SessionView { entries: e, references, keys: keys_of(e), index: 0, changed: 0 }
    }

    /// The session after it went to the first entry that still needs a text.
    pub open spec fn sought(self) -> SessionView {
        SessionView {
            index: match first_untranslated(self.entries, self.keys) {
                Some(i) => i,
                None => self.index,
            },
            ..self
        }
    }

    /// What is shown of the current entry; none after the last.
    pub open spec fn prompt(self) -> Option<PromptView> {
        if self.index >= self.keys.len() {
            None
        } else {
            let reference = reference_in(self.references, self.key());
            Some(
                PromptView {
                    number: self.index + 1,
                    total: self.keys.len() as int,
                    key: self.key(),
                    reference: if reference.len() == 0 {
                        None
                    } else {
                        Some(in_one_line(reference))
                    },
                    current: match lookup(self.entries, self.key()) {
                        Some(text) => text,
                        None => Seq::empty(),
                    },
                },
            )
        }
    }

    /// The key that is shown.
    pub open spec fn key(self) -> Seq<char> {
        self.keys[self.index]
    }

    /// The session after `text` was set for the key that is shown.
    pub open spec fn stored(self, text: Seq<char>) -> SessionView {
        SessionView {
            entries: inserted(self.entries, self.key(), text),
            index: self.index + 1,
            changed: self.changed + 1,
            ..self
        }
    }

    /// The session after `input` was typed, and what came of it.
    pub open spec fn after(self, input: Seq<char>) -> (SessionView, Round) {
        if input.len() == 0 {
            (SessionView { index: self.index + 1, ..self }, Round::Next)
        } else if input == ":q"@ {
            (self, Round::Quit)
        } else if input == ":n"@ {
            (
                SessionView {
                    index: if self.index + 1 < self.keys.len() {
                        self.index + 1
                    } else {
                        self.keys.len() - 1
                    },
                    ..self
                },
                Round::Next,
            )
        } else if input == ":p"@ {
            (
                SessionView {
                    index: if self.index > 0 {
                        self.index - 1
                    } else {
                        0
                    },
                    ..self
                },
                Round::Next,
            )
        } else if input == "="@ {
            let reference = reference_in(self.references, self.key());
            if reference.len() == 0 {
                (self, Round::NoReference)
            } else {
                (self.stored(reference), Round::Next)
            }
        } else {
            (self.stored(input), Round::Next)
        }
    }
}

/// What a session shows of an entry.
#[derive(Debug)]
pub struct Prompt {
    /// Which entry it is, counted from one.
    pub number: usize,
    /// How many entries there are.
    pub total: usize,
    pub key: String,
    /// The reference text, in one line; none where it is empty.
    pub reference: Option<String>,
    /// The text that is set; empty where there is none.
    pub current: String,
}

/// What a session shows of an entry, as a mathematical value.
pub struct PromptView {
    pub number: int,
    pub total: int,
    pub key: Seq<char>,
    pub reference: Option<Seq<char>>,
    pub current: Seq<char>,
}

impl View for Prompt {
    type V = PromptView;

    open spec fn view(&self) -> PromptView {
        PromptView {
            number: self.number as int,
            total: self.total as int,
            key: self.key@,
            reference: opt_view(self.reference),
            current: self.current@,
        }
    }
}

impl<'a> Session<'a> {
    /// The session as a mathematical value.
    pub open spec fn model(self) -> SessionView {
        SessionView {
            entries: entries(*self.table),
            references: pair_views(self.references@),
            keys: views(self.keys@),
            index: self.index as int,
            changed: self.changed as int,
        }
    }

    /// A session over `table` that starts at its first entry.
    pub fn new(table: &'a mut Table, references: Vec<(String, String)>) -> (r: Self)
        ensures
            r.model() == SessionView::started(entries(*old(table)), pair_views(references@)),
            distinct(r.model().entries),
            *r.table == *old(table),
            *final(r.table) == *final(table),
    {
        let keys = keys(table);
        Session { table, references, keys, index: 0, changed: 0 }
    }

    /// The reference text of `key`; empty where there is none.
    pub fn reference_of(&self, key: &str) -> (r: String)
        ensures
            r@ == reference_in(self.model().references, key@),
    {
        reference_for(&self.references, key)
    }

    /// Goes to the first entry that still needs a text; stays where none does.
    pub fn seek_first_untranslated(&mut self)
        ensures
            final(self).model() == old(self).model().sought(),
            *final(self).table == *old(self).table,
            *final(final(self).table) == *final(old(self).table),
    {
        let mut i: usize = 0;
        let mut found: Option<usize> = None;
        let ghost e = entries(*self.table);
        let ghost all = views(self.keys@);
        assert(all.take(0).len() == 0);
        while i < self.keys.len()
            invariant
                *self == *old(self),
                i <= self.keys@.len(),
                e == entries(*self.table),
                all == views(self.keys@),
                match found {
                    Some(k) => first_untranslated(e, all.take(i as int)) == Some(k as int),
                    None => first_untranslated(e, all.take(i as int)) is None,
                },
            decreases self.keys@.len() - i,
        {
            assert(all.take(i as int + 1).drop_last() == all.take(i as int));
            assert(all.take(i as int + 1).last() == self.keys@[i as int]@);
            if found.is_none() {
                let open = match table_get(&*self.table, self.keys[i].as_str()) {
                    Some(text) => is_blank(text.as_str()),
                    None => true,
                };
                if open {
                    found = Some(i);
                }
            }
            i = i + 1;
        }
        assert(all.take(all.len() as int) == all);
        if let Some(at) = found {
            self.index = at;
        }
    }

    /// What to show of the current entry; none after the last.
    pub fn prompt(&self) -> (r: Option<Prompt>)
        ensures
            match r {
                Some(p) => self.model().prompt() == Some(p@),
                None => self.model().prompt() is None,
            },
    {
        if self.index >= self.keys.len() {
            return None;
        }
        assert(views(self.keys@)[self.index as int] == self.keys@[self.index as int]@);
        let key = self.keys[self.index].clone();
        let current = match table_get(&*self.table, key.as_str()) {
            Some(text) => text.clone(),
            None => {
                let none = String::new();
                assert(none@ =~= Seq::<char>::empty());
                none
            },
        };
        let text = self.reference_of(key.as_str());
        let reference = if text.as_str().is_empty() {
            None
        } else {
            Some(one_line(text.as_str()))
        };
        Some(Prompt { number: self.index + 1, total: self.keys.len(), key, reference, current })
    }

    /// One round: takes the line that was typed at the current entry.
    pub fn run(&mut self, line: &str) -> (r: Round)
        requires
            old(self).index < old(self).keys@.len(),
            old(self).model().after(normalized(line@)).0.changed <= usize::MAX,
        ensures
            (final(self).model(), r) == old(self).model().after(normalized(line@)),
            *final(final(self).table) == *final(old(self).table),
    {
        let n = self.keys.len();
        assert(views(self.keys@)[self.index as int] == self.keys@[self.index as int]@);
        let key = self.keys[self.index].clone();
        let input = normalize_input(line);
        let typed = input.as_str();
        if typed.is_empty() {
            self.index = self.index + 1;
            Round::Next
        } else if same_text(typed, ":q") {
            Round::Quit
        } else if same_text(typed, ":n") {
            if self.index + 1 < n {
                self.index = self.index + 1;
            }
            Round::Next
        } else if same_text(typed, ":p") {
            if self.index > 0 {
                self.index = self.index - 1;
            }
            Round::Next
        } else if same_text(typed, "=") {
            let reference = self.reference_of(key.as_str());
            if reference.as_str().is_empty() {
                Round::NoReference
            } else {
                self.store(key, reference);
                Round::Next
            }
        } else {
            self.store(key, input);
            Round::Next
        }
    }

    /// Sets the text of the current entry and goes on to the next.
    fn store(&mut self, key: String, text: String)
        requires
            old(self).index < old(self).keys@.len(),
            old(self).changed < usize::MAX,
            key@ == old(self).model().key(),
        ensures
            final(self).model() == old(self).model().stored(text@),
            *final(final(self).table) == *final(old(self).table),
    {
        assert(self.keys.len() <= usize::MAX);
        table_insert(self.table, key, text);
        self.changed = self.changed + 1;
        self.index = self.index + 1;
    }

    /// How often a text was set.
    pub fn changed_count(&self) -> (r: usize)
        ensures
            r == self.model().changed,
    {
        self.changed
    }
}

/// The reference text of `key`; empty where there is none.
pub fn reference_for(references: &Vec<(String, String)>, key: &str) -> (r: String)
    ensures
        r@ == reference_in(pair_views(references@), key@),
{
    let ghost all = pair_views(references@);
    let mut i: usize = 0;
    assert(all.skip(0) == all);
    while i < references.len()
        invariant
            i <= references@.len(),
            all == pair_views(references@),
            reference_in(all, key@) == reference_in(all.skip(i as int), key@),
        decreases references@.len() - i,
    {
        assert(all.skip(i as int).drop_first() == all.skip(i as int + 1));
        assert(all[i as int] == (references@[i as int].0@, references@[i as int].1@));
        if same_text(references[i].0.as_str(), key) {
            return references[i].1.clone();
        }
        i = i + 1;
    }
    let r = String::new();
    assert(r@ =~= reference_in(all.skip(all.len() as int), key@));
    r
}

/// The parts that are not blank, without white space at their ends.
pub open spec fn solid(parts: Seq<Seq<char>>) -> Seq<Seq<char>>
    decreases parts.len(),
{
    if parts.len() == 0 {
        parts
    } else if blank(parts.last()) {
        solid(parts.drop_last())
    } else {
        solid(parts.drop_last()).push(trimmed(parts.last()))
    }
}

/// A text in one line: its lines that are not blank, trimmed, with a return sign between them.
pub open spec fn in_one_line(text: Seq<char>) -> Seq<char> {
    joined(solid(lines_of(text)), " ⏎ "@)
}

/// Puts a text of several lines into one, for reading in a terminal.
pub fn one_line(text: &str) -> (r: String)
    ensures
        r@ == in_one_line(text@),
{
    let parts = lines(text);
    let ghost all = views(parts@);
    let mut kept: Vec<String> = Vec::new();
    let mut i: usize = 0;
    while i < parts.len()
        invariant
            i <= parts@.len(),
            all == views(parts@),
            views(kept@) == solid(all.take(i as int)),
        decreases parts@.len() - i,
    {
        let ghost before = views(kept@);
        assert(all.take(i as int + 1).drop_last() == all.take(i as int));
        assert(all.take(i as int + 1).last() == parts@[i as int]@);
        let line = trim(parts[i].as_str());
        if !line.is_empty() {
            kept.push(line.to_owned());
            assert(views(kept@) == before.push(line@));
        }
        i = i + 1;
    }
    assert(all.take(all.len() as int) == all);
    join(&kept, " ⏎ ")
}

/// All lines of a text in one, with a return sign between them.
pub fn joined_lines(text: &str) -> (r: String)
    ensures
        r@ == joined(lines_of(text@), " ⏎ "@),
{
    join(&lines(text), " ⏎ ")
}

} // verus!
