//! Laws of texts and numbers.

use vstd::prelude::*;

use crate::edit::{in_one_line, normalized, solid};
use crate::laws::{
    law_blank, law_trim_twice, lemma_cut_end, lemma_cut_start, lemma_joined_is_tight,
    lemma_solid_is_tight,
};
use crate::text::{
    all_digits, blank, cut_end, cut_start, digits_value, joined, left_aligned, lemma_next_index,
    lines_of, next_index, number_in, right_aligned, trimmed, unsigned, visible, whitespace, Class,
};

verus! {

broadcast use vstd::seq::group_seq_axioms;

/// Whether all characters of `s` are of `class`.
pub open spec fn all_of(s: Seq<char>, class: Class) -> bool {
    forall|i: int| 0 <= i < s.len() ==> class.has(#[trigger] s[i])
}

/// Whether `s` is `inner` between `before` and `after`.
pub open spec fn wraps(
    s: Seq<char>,
    before: Seq<char>,
    inner: Seq<char>,
    after: Seq<char>,
) -> bool {
    s == before + inner + after
}

proof fn lemma_cut_before(before: Seq<char>, s: Seq<char>, class: Class)
    requires
        all_of(before, class),
    ensures
        cut_start(before + s, class) == cut_start(s, class),
    decreases before.len(),
{
    if before.len() > 0 {
        let rest = before.drop_first();
        assert forall|i: int| 0 <= i < rest.len() implies class.has(#[trigger] rest[i]) by {
            assert(rest[i] == before[i + 1]);
        }
        lemma_cut_before(rest, s, class);
        assert((before + s).drop_first() =~= rest + s);
        assert(class.has(before[0]));
    } else {
        assert(before + s =~= s);
    }
}

proof fn lemma_cut_after(s: Seq<char>, after: Seq<char>, class: Class)
    requires
        all_of(after, class),
    ensures
        cut_end(s + after, class) == cut_end(s, class),
    decreases after.len(),
{
    if after.len() > 0 {
        let rest = after.drop_last();
        assert forall|i: int| 0 <= i < rest.len() implies class.has(#[trigger] rest[i]) by {
            assert(rest[i] == after[i]);
        }
        lemma_cut_after(s, rest, class);
        assert((s + after).drop_last() =~= s + rest);
        assert(class.has(after[after.len() - 1]));
    } else {
        assert(s + after =~= s);
    }
}

/// Trimming takes off nothing but white space at the ends: the text is the trimmed text with white
/// space before and after it.
pub proof fn law_trim_takes_white_space(s: Seq<char>)
    ensures
        exists|before: Seq<char>, after: Seq<char>|
            all_of(before, Class::Space) && all_of(after, Class::Space) && #[trigger] wraps(
                s,
                before,
                trimmed(s),
                after,
            ),
{
    let a = cut_start(s, Class::Space);
    let b = cut_end(a, Class::Space);
    lemma_cut_start(s, Class::Space);
    lemma_cut_end(a, Class::Space);
    let before = s.take(s.len() - a.len());
    let after = a.skip(b.len() as int);
    assert forall|i: int| 0 <= i < after.len() implies Class::Space.has(#[trigger] after[i]) by {
        assert(after[i] == a[b.len() + i]);
    }
    assert(all_of(before, Class::Space));
    assert(before + b + after =~= s);
    assert(wraps(s, before, trimmed(s), after));
}

/// Trimming takes off all white space at the ends, whatever stands between.
pub proof fn law_trim_is_unique(before: Seq<char>, inner: Seq<char>, after: Seq<char>)
    requires
        forall|i: int| 0 <= i < before.len() ==> whitespace(#[trigger] before[i]),
        forall|i: int| 0 <= i < after.len() ==> whitespace(#[trigger] after[i]),
        inner.len() == 0 || !whitespace(inner.first()) && !whitespace(inner.last()),
    ensures
        trimmed(before + inner + after) == inner,
{
    assert forall|i: int| 0 <= i < before.len() implies Class::Space.has(
        #[trigger] before[i],
    ) by {}
    assert forall|i: int| 0 <= i < after.len() implies Class::Space.has(#[trigger] after[i]) by {}
    let whole = before + inner + after;
    if inner.len() == 0 {
        assert forall|i: int| 0 <= i < whole.len() implies whitespace(#[trigger] whole[i]) by {
            if i < before.len() {
                assert(whole[i] == before[i]);
            } else {
                assert(whole[i] == after[i - before.len()]);
            }
        }
        law_blank(whole);
        assert(trimmed(whole) =~= inner);
    } else {
        assert(whole =~= before + (inner + after));
        lemma_cut_before(before, inner + after, Class::Space);
        assert((inner + after).first() == inner.first());
        lemma_cut_after(inner, after, Class::Space);
    }
}

/// Cleaning takes off nothing but byte order marks before and line ends after what was typed, and
/// leaves none of them at these places.
pub proof fn law_normalize_takes_marks_and_ends(raw: Seq<char>)
    ensures
        exists|before: Seq<char>, after: Seq<char>|
            (forall|i: int| 0 <= i < before.len() ==> #[trigger] before[i] == '\u{feff}') && (
            forall|i: int|
                0 <= i < after.len() ==> #[trigger] after[i] == '\r' || after[i] == '\n')
                && #[trigger] wraps(raw, before, normalized(raw), after),
        normalized(raw).len() > 0 ==> normalized(raw).first() != '\u{feff}' && normalized(
            raw,
        ).last() != '\r' && normalized(raw).last() != '\n',
{
    let a = cut_start(raw, Class::Mark);
    let b = cut_end(a, Class::LineEnd);
    lemma_cut_start(raw, Class::Mark);
    lemma_cut_end(a, Class::LineEnd);
    let before = raw.take(raw.len() - a.len());
    let after = a.skip(b.len() as int);
    assert forall|i: int| 0 <= i < after.len() implies #[trigger] after[i] == '\r' || after[i]
        == '\n' by {
        assert(after[i] == a[b.len() + i]);
        assert(Class::LineEnd.has(a[b.len() + i]));
    }
    assert forall|i: int| 0 <= i < before.len() implies #[trigger] before[i] == '\u{feff}' by {
        assert(before[i] == raw[i]);
        assert(Class::Mark.has(raw[i]));
    }
    assert(before + b + after =~= raw);
    assert(wraps(raw, before, normalized(raw), after));
    if b.len() > 0 {
        assert(b.first() == a.first());
    }
}

/// Two lists that are joined give what both together give.
pub proof fn law_join(a: Seq<Seq<char>>, b: Seq<Seq<char>>, sep: Seq<char>, part: Seq<char>)
    ensures
        joined(Seq::empty(), sep).len() == 0,
        joined(seq![part], sep) == part,
        a.len() > 0 && b.len() > 0 ==> joined(a + b, sep) == joined(a, sep) + sep + joined(b, sep),
    decreases b.len(),
{
    if a.len() > 0 && b.len() > 0 {
        let short = b.drop_last();
        law_join(a, short, sep, part);
        assert((a + b).drop_last() =~= a + short);
        assert((a + b).last() == b.last());
        if b.len() == 1 {
            assert(a + short =~= a);
            assert(joined(b, sep) == b[0]);
        } else {
            assert(joined(a, sep) + sep + joined(short, sep) + sep + b.last() =~= joined(a, sep)
                + sep + (joined(short, sep) + sep + b.last()));
        }
    }
}

/// A line ends in a line feed, with or without a carriage return before it, or at the end of the
/// text; the lines of a text are its first line and those of what follows it.
pub proof fn law_lines(line: Seq<char>, rest: Seq<char>)
    requires
        !line.contains('\n'),
    ensures
        lines_of(Seq::empty()).len() == 0,
        line.len() > 0 ==> lines_of(line) == seq![line],
        line.len() == 0 || line.last() != '\r' ==> lines_of(line + seq!['\n'] + rest) == seq![line]
            + lines_of(rest),
        lines_of(line + seq!['\r', '\n'] + rest) == seq![line] + lines_of(rest),
{
    lemma_first_line(line, rest);
    assert forall|i: int| 0 <= i < line.len() implies line[i] != '\n' by {
        assert(line.contains(line[i]));
    }
    lemma_next_index(line, '\n', 0);
    let long = line.push('\r');
    assert(!long.contains('\n')) by {
        assert forall|i: int| 0 <= i < long.len() implies long[i] != '\n' by {
            if i < line.len() {
                assert(long[i] == line[i]);
            }
        }
    }
    lemma_first_line(long, rest);
    assert(line + seq!['\r', '\n'] + rest =~= long + seq!['\n'] + rest);
    assert(long.drop_last() =~= line);
}

proof fn lemma_first_line(line: Seq<char>, rest: Seq<char>)
    requires
        !line.contains('\n'),
    ensures
        lines_of(line + seq!['\n'] + rest) == seq![
            if line.len() > 0 && line.last() == '\r' {
                line.drop_last()
            } else {
                line
            },
        ] + lines_of(rest),
{
    let s = line + seq!['\n'] + rest;
    lemma_next_index(s, '\n', 0);
    let end = next_index(s, '\n', 0);
    assert(s[line.len() as int] == '\n');
    if end < line.len() {
        assert(line[end] == s[end]);
        assert(line.contains('\n'));
    }
    assert(end == line.len());
    assert(s.take(end) =~= line);
    assert(s.skip(end + 1) =~= rest);
}

proof fn lemma_solid_join(a: Seq<Seq<char>>, b: Seq<Seq<char>>)
    ensures
        solid(a + b) == solid(a) + solid(b),
    decreases b.len(),
{
    if b.len() > 0 {
        lemma_solid_join(a, b.drop_last());
        assert((a + b).drop_last() =~= a + b.drop_last());
        assert((a + b).last() == b.last());
        assert(solid(a + b) =~= solid(a) + solid(b));
    } else {
        assert(a + b =~= a);
        assert(solid(a) + solid(b) =~= solid(a));
    }
}

/// A text is put into one line by trimming each line, leaving out those that are blank, and putting
/// a return sign between the others.
pub proof fn law_one_line_by_lines(line: Seq<char>, rest: Seq<char>)
    requires
        !line.contains('\n'),
    ensures
        in_one_line(line) == trimmed(line),
        in_one_line(line + seq!['\n'] + rest) == if blank(line) {
            in_one_line(rest)
        } else if in_one_line(rest).len() == 0 {
            trimmed(line)
        } else {
            trimmed(line) + " ⏎ "@ + in_one_line(rest)
        },
{
    let sep = " ⏎ "@;
    law_lines(line, rest);
    lemma_first_line(line, rest);
    let cut = if line.len() > 0 && line.last() == '\r' {
        line.drop_last()
    } else {
        line
    };
    lemma_return_is_space(line);
    let tail = solid(lines_of(rest));
    let head = solid(seq![cut]);
    lemma_solid_join(seq![cut], lines_of(rest));
    assert(seq![cut].drop_last() =~= Seq::<Seq<char>>::empty());
    assert(solid(seq![cut].drop_last()).len() == 0);
    lemma_solid_is_tight(lines_of(rest));
    if tail.len() > 0 {
        lemma_joined_is_tight(tail, sep);
    }
    assert(seq![line].drop_last() =~= Seq::<Seq<char>>::empty());
    assert(solid(seq![line].drop_last()).len() == 0);
    if line.len() > 0 {
        if blank(line) {
            assert(solid(seq![line]).len() == 0);
            assert(in_one_line(line) =~= trimmed(line));
        } else {
            assert(solid(seq![line]) =~= seq![trimmed(line)]);
        }
    } else {
        assert(solid(lines_of(line)).len() == 0);
        assert(in_one_line(line) =~= trimmed(line));
    }
    if blank(line) {
        assert(head =~= Seq::<Seq<char>>::empty());
        assert(head + tail =~= tail);
    } else {
        assert(head =~= seq![trimmed(line)]);
        law_join(head, tail, sep, trimmed(line));
        if tail.len() == 0 {
            assert(head + tail =~= head);
        }
    }
}

proof fn lemma_return_is_space(line: Seq<char>)
    ensures
        line.len() > 0 && line.last() == '\r' ==> trimmed(line.drop_last()) == trimmed(line),
{
    if line.len() > 0 && line.last() == '\r' {
        let cut = line.drop_last();
        law_trim_takes_white_space(cut);
        law_trim_twice(cut);
        let (before, after) = choose|before: Seq<char>, after: Seq<char>|
            all_of(before, Class::Space) && all_of(after, Class::Space) && #[trigger] wraps(
                cut,
                before,
                trimmed(cut),
                after,
            );
        let longer = after.push('\r');
        assert forall|i: int| 0 <= i < longer.len() implies whitespace(#[trigger] longer[i]) by {
            if i < after.len() {
                assert(Class::Space.has(after[i]));
            }
        }
        assert forall|i: int| 0 <= i < before.len() implies whitespace(#[trigger] before[i]) by {
            assert(Class::Space.has(before[i]));
        }
        law_trim_is_unique(before, trimmed(cut), longer);
        assert(before + trimmed(cut) + longer =~= cut.push('\r'));
        assert(cut.push('\r') =~= line);
    }
}

/// Taking the white space out of a text takes it out character by character.
pub proof fn law_visible(a: Seq<char>, b: Seq<char>, c: char)
    ensures
        visible(a + b) == visible(a) + visible(b),
        visible(seq![c]) == if whitespace(c) {
            Seq::empty()
        } else {
            seq![c]
        },
    decreases b.len(),
{
    assert(seq![c].drop_last() =~= Seq::<char>::empty());
    assert(visible(seq![c].drop_last()) =~= Seq::<char>::empty());
    assert(Seq::<char>::empty().push(c) =~= seq![c]);
    if b.len() > 0 {
        law_visible(a, b.drop_last(), c);
        assert((a + b).drop_last() =~= a + b.drop_last());
        assert((a + b).last() == b.last());
        assert(visible(a + b) =~= visible(a) + visible(b));
    } else {
        assert(a + b =~= a);
        assert(visible(a) + visible(b) =~= visible(a));
    }
}

/// A number is read digit by digit, in decimal; a plus sign may stand before it, and nothing else
/// may stand in it.
pub proof fn law_number(s: Seq<char>, c: char)
    ensures
        '0' <= c <= '9' ==> number_in(seq![c]) == Some((c as u32 - '0' as u32) as nat),
        number_in(s) matches Some(n) ==> '0' <= c <= '9' ==> number_in(s.push(c)) == Some(
            n * 10 + (c as u32 - '0' as u32) as nat,
        ),
        s.len() > 0 && s[0] != '+' ==> number_in(seq!['+'] + s) == number_in(s),
        number_in(s) is Some ==> forall|i: int|
            0 <= i < s.len() ==> '0' <= #[trigger] s[i] <= '9' || i == 0 && s[i] == '+',
        number_in(Seq::empty()) is None,
        number_in(seq!['+']) is None,
{
    assert(unsigned(seq!['+']) =~= Seq::<char>::empty());
    if '0' <= c <= '9' {
        assert(unsigned(seq![c]) =~= seq![c]);
        assert(seq![c].drop_last() =~= Seq::<char>::empty());
        assert(digits_value(seq![c].drop_last()) == 0);
        assert(all_digits(seq![c]));
        if number_in(s) is Some {
            let u = unsigned(s);
            assert(s.len() > 0);
            assert(unsigned(s.push(c)) =~= u.push(c));
            assert(u.push(c).drop_last() =~= u);
            assert(all_digits(u.push(c)));
        }
    }
    if s.len() > 0 && s[0] != '+' {
        assert((seq!['+'] + s).drop_first() =~= s);
    }
    if number_in(s) is Some {
        assert forall|i: int| 0 <= i < s.len() implies '0' <= #[trigger] s[i] <= '9' || i == 0
            && s[i] == '+' by {
            if s[0] == '+' {
                if i > 0 {
                    assert(unsigned(s)[i - 1] == s[i]);
                }
            } else {
                assert(unsigned(s)[i] == s[i]);
            }
        }
    }
}

/// A text that is aligned is the text and blanks, and as long as the width asks, or as the text
/// where that is longer.
pub proof fn law_aligned(s: Seq<char>, width: int)
    ensures
        left_aligned(s, width).len() == if width > s.len() {
            width
        } else {
            s.len() as int
        },
        left_aligned(s, width).take(s.len() as int) == s,
        forall|i: int|
            s.len() <= i < left_aligned(s, width).len() ==> #[trigger] left_aligned(s, width)[i]
                == ' ',
        right_aligned(s, width).len() == left_aligned(s, width).len(),
        right_aligned(s, width).skip(right_aligned(s, width).len() - s.len()) == s,
        forall|i: int|
            0 <= i < right_aligned(s, width).len() - s.len() ==> #[trigger] right_aligned(
                s,
                width,
            )[i] == ' ',
{
    assert(left_aligned(s, width).take(s.len() as int) =~= s);
    assert(right_aligned(s, width).skip(right_aligned(s, width).len() - s.len()) =~= s);
}

} // verus!
