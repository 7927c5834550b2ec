//! Text utilities: trimming, line splitting and number formatting.

use vstd::prelude::*;

verus! {

broadcast use vstd::seq::group_seq_axioms;

/// `String::push` appends one character to the end of the string.
pub assume_specification[ String::push ](s: &mut String, c: char)
    ensures
        final(s)@ == old(s)@.push(c),
;

/// The characters with the Unicode property `White_Space`.
pub open spec fn whitespace(c: char) -> bool {
    ||| '\u{9}' <= c <= '\u{d}'
    ||| c == ' '
    ||| c == '\u{85}'
    ||| c == '\u{a0}'
    ||| c == '\u{1680}'
    ||| '\u{2000}' <= c <= '\u{200a}'
    ||| c == '\u{2028}'
    ||| c == '\u{2029}'
    ||| c == '\u{202f}'
    ||| c == '\u{205f}'
    ||| c == '\u{3000}'
}

/// Whether `c` is white space.
pub fn is_whitespace(c: char) -> (r: bool)
    ensures
        r == whitespace(c),
{
    ('\u{9}' <= c && c <= '\u{d}') || c == ' ' || c == '\u{85}' || c == '\u{a0}' || c == '\u{1680}'
        || ('\u{2000}' <= c && c <= '\u{200a}') || c == '\u{2028}' || c == '\u{2029}' || c
        == '\u{202f}' || c == '\u{205f}' || c == '\u{3000}'
}

/// Whether `a` and `b` hold the same characters.
pub fn same_text(a: &str, b: &str) -> (r: bool)
    ensures
        r == (a@ == b@),
{
    a.to_owned() == b.to_owned()
}

/// The characters of `s`, in order.
pub fn characters(s: &str) -> (r: Vec<char>)
    ensures
        r@ == s@,
{
    let mut r: Vec<char> = Vec::new();
    for c in it: s.chars()
        invariant
            it.seq() == s@,
            r@ == s@.take(it.index() as int),
    {
        r.push(c);
        assert(s@.take(it.index() as int + 1) == s@.take(it.index() as int).push(c));
    }
    assert(s@.take(s@.len() as int) == s@);
    r
}

/// The string made of the characters of `v` from `from` up to `to`.
pub fn string_of(v: &Vec<char>, from: usize, to: usize) -> (r: String)
    requires
        from <= to <= v@.len(),
    ensures
        r@ == v@.subrange(from as int, to as int),
{
    let mut r = String::new();
    let mut i: usize = from;
    while i < to
        invariant
            from <= i <= to <= v@.len(),
            r@ == v@.subrange(from as int, i as int),
        decreases to - i,
    {
        r.push(v[i]);
        assert(v@.subrange(from as int, i as int + 1) == v@.subrange(from as int, i as int).push(
            v@[i as int],
        ));
        i = i + 1;
    }
    r
}

/// A class of characters that is cut off at an end of a text.
#[derive(Clone, Copy)]
pub enum Class {
    /// White space.
    Space,
    /// The ends of a line: carriage return and line feed.
    LineEnd,
    /// The byte order mark.
    Mark,
}

impl Class {
    /// Whether `c` is of this class.
    pub open spec fn has(self, c: char) -> bool {
        match self {
            Class::Space => whitespace(c),
            Class::LineEnd => c == '\r' || c == '\n',
            Class::Mark => c == '\u{feff}',
        }
    }

    /// Whether `c` is of this class.
    pub fn contains(self, c: char) -> (r: bool)
        ensures
            r == self.has(c),
    {
        match self {
            Class::Space => is_whitespace(c),
            Class::LineEnd => c == '\r' || c == '\n',
            Class::Mark => c == '\u{feff}',
        }
    }
}

/// `s` without its leading characters of `class`.
pub open spec fn cut_start(s: Seq<char>, class: Class) -> Seq<char>
    decreases s.len(),
{
    if s.len() > 0 && class.has(s.first()) {
        cut_start(s.drop_first(), class)
    } else {
        s
    }
}

/// `s` without its trailing characters of `class`.
pub open spec fn cut_end(s: Seq<char>, class: Class) -> Seq<char>
    decreases s.len(),
{
    if s.len() > 0 && class.has(s.last()) {
        cut_end(s.drop_last(), class)
    } else {
        s
    }
}

/// `s` without white space at either end.
pub open spec fn trimmed(s: Seq<char>) -> Seq<char> {
    cut_end(cut_start(s, Class::Space), Class::Space)
}

/// Whether `s` holds nothing but white space.
pub open spec fn blank(s: Seq<char>) -> bool {
    trimmed(s).len() == 0
}

/// `s` without its leading characters of `class`.
pub fn trim_start<'a>(s: &'a str, class: Class) -> (r: &'a str)
    ensures
        r@ == cut_start(s@, class),
{
    let n = s.unicode_len();
    let mut i: usize = 0;
    assert(s@.skip(0) == s@);
    while i < n && class.contains(s.get_char(i))
        invariant
            i <= n == s@.len(),
            cut_start(s@, class) == cut_start(s@.skip(i as int), class),
        decreases n - i,
    {
        assert(s@.skip(i as int).drop_first() == s@.skip(i as int + 1));
        i = i + 1;
    }
    s.substring_char(i, n)
}

/// `s` without its trailing characters of `class`.
pub fn trim_end<'a>(s: &'a str, class: Class) -> (r: &'a str)
    ensures
        r@ == cut_end(s@, class),
{
    let n = s.unicode_len();
    let mut i: usize = n;
    assert(s@.take(n as int) == s@);
    while i > 0 && class.contains(s.get_char(i - 1))
        invariant
            i <= n == s@.len(),
            cut_end(s@, class) == cut_end(s@.take(i as int), class),
        decreases i,
    {
        assert(s@.take(i as int).drop_last() == s@.take(i as int - 1));
        i = i - 1;
    }
    s.substring_char(0, i)
}

/// `s` without white space at either end.
pub fn trim<'a>(s: &'a str) -> (r: &'a str)
    ensures
        r@ == trimmed(s@),
{
    trim_end(trim_start(s, Class::Space), Class::Space)
}

/// Whether `s` holds nothing but white space.
pub fn is_blank(s: &str) -> (r: bool)
    ensures
        r == blank(s@),
{
    trim(s).is_empty()
}

/// The first place at or after `from` where `s` holds `c`; the length of `s` where there is none.
pub open spec fn next_index(s: Seq<char>, c: char, from: int) -> int
    decreases s.len() - from,
{
    if from >= s.len() || s[from] == c {
        from
    } else {
        next_index(s, c, from + 1)
    }
}

/// `s` without one trailing carriage return.
pub open spec fn without_return(s: Seq<char>) -> Seq<char> {
    if s.len() > 0 && s.last() == '\r' {
        s.drop_last()
    } else {
        s
    }
}

/// The lines of `s`. A line ends in a line feed, with or without a carriage return before it, or
/// at the end of the text.
pub open spec fn lines_of(s: Seq<char>) -> Seq<Seq<char>>
    decreases s.len(),
    via lines_of_decreases
{
    if s.len() == 0 {
        Seq::empty()
    } else {
        let end = next_index(s, '\n', 0);
        if end >= s.len() {
            seq![s]
        } else {
            seq![without_return(s.take(end))] + lines_of(s.skip(end + 1))
        }
    }
}

#[via_fn]
proof fn lines_of_decreases(s: Seq<char>) {
    lemma_next_index(s, '\n', 0);
}

/// `next_index` is the first match, or the length.
pub proof fn lemma_next_index(s: Seq<char>, c: char, from: int)
    requires
        0 <= from <= s.len(),
    ensures
        from <= next_index(s, c, from) <= s.len(),
        forall|i: int| from <= i < next_index(s, c, from) ==> #[trigger] s[i] != c,
        next_index(s, c, from) < s.len() ==> s[next_index(s, c, from)] == c,
    decreases s.len() - from,
{
    if from < s.len() && s[from] != c {
        lemma_next_index(s, c, from + 1);
    }
}

/// The views of `parts`, in order.
pub open spec fn views(parts: Seq<String>) -> Seq<Seq<char>> {
    parts.map_values(|p: String| p@)
}

/// The lines of `s`.
pub fn lines(s: &str) -> (r: Vec<String>)
    ensures
        views(r@) == lines_of(s@),
{
    let v = characters(s);
    let n = v.len();
    let mut r: Vec<String> = Vec::new();
    let mut start: usize = 0;
    assert(v@.skip(0) == v@);
    while start < n
        invariant
            start <= n == v@.len(),
            v@ == s@,
            views(r@) + lines_of(v@.skip(start as int)) == lines_of(s@),
        decreases n - start,
    {
        let ghost rest = v@.skip(start as int);
        let mut end: usize = start;
        while end < n && v[end] != '\n'
            invariant
                start <= end <= n == v@.len(),
                rest == v@.skip(start as int),
                next_index(rest, '\n', 0) == next_index(rest, '\n', end - start),
            decreases n - end,
        {
            end = end + 1;
        }
        let ghost before = views(r@);
        if end < n {
            let mut stop: usize = end;
            if end > start && v[end - 1] == '\r' {
                stop = end - 1;
            }
            let line = string_of(&v, start, stop);
            assert(line@ == without_return(rest.take(end - start)));
            r.push(line);
            assert(views(r@) == before.push(line@));
            assert(rest.skip(end - start + 1) == v@.skip(end + 1));
            assert(before + (seq![line@] + lines_of(v@.skip(end + 1))) == before.push(line@)
                + lines_of(v@.skip(end + 1)));
            start = end + 1;
        } else {
            let line = string_of(&v, start, n);
            assert(line@ == rest);
            r.push(line);
            assert(views(r@) == before.push(line@));
            assert(before + seq![rest] == before.push(rest));
            start = n;
            assert(v@.skip(n as int).len() == 0);
            assert(views(r@) + lines_of(v@.skip(n as int)) == views(r@));
        }
    }
    assert(v@.skip(n as int).len() == 0);
    assert(views(r@) + lines_of(v@.skip(n as int)) == views(r@));
    r
}

/// `parts` in order, with `sep` between them.
pub open spec fn joined(parts: Seq<Seq<char>>, sep: Seq<char>) -> Seq<char>
    decreases parts.len(),
{
    if parts.len() == 0 {
        Seq::empty()
    } else if parts.len() == 1 {
        parts[0]
    } else {
        joined(parts.drop_last(), sep) + sep + parts.last()
    }
}

/// `parts` in order, with `sep` between them.
pub fn join(parts: &Vec<String>, sep: &str) -> (r: String)
    ensures
        r@ == joined(views(parts@), sep@),
{
    let mut r = String::new();
    let mut i: usize = 0;
    let ghost all = views(parts@);
    while i < parts.len()
        invariant
            i <= parts@.len() == all.len(),
            all == views(parts@),
            r@ == joined(all.take(i as int), sep@),
        decreases parts@.len() - i,
    {
        if i > 0 {
            r.append(sep);
        }
        r.append(parts[i].as_str());
        assert(all.take(i as int + 1).drop_last() == all.take(i as int));
        i = i + 1;
    }
    assert(all.take(all.len() as int) == all);
    r
}

/// `s` without its white space.
pub open spec fn visible(s: Seq<char>) -> Seq<char>
    decreases s.len(),
{
    if s.len() == 0 {
        s
    } else if whitespace(s.last()) {
        visible(s.drop_last())
    } else {
        visible(s.drop_last()).push(s.last())
    }
}

/// `s` without its white space.
pub fn without_whitespace(s: &str) -> (r: String)
    ensures
        r@ == visible(s@),
{
    let mut r = String::new();
    for c in it: s.chars()
        invariant
            it.seq() == s@,
            r@ == visible(s@.take(it.index() as int)),
    {
        if !is_whitespace(c) {
            r.push(c);
        }
        assert(s@.take(it.index() as int + 1).drop_last() == s@.take(it.index() as int));
    }
    assert(s@.take(s@.len() as int) == s@);
    r
}

/// The decimal digit `d`.
pub open spec fn digit(d: int) -> char {
    (48 + d) as char
}

/// `n` in decimal.
pub open spec fn decimal(n: nat) -> Seq<char>
    decreases n,
{
    if n < 10 {
        seq![digit(n as int)]
    } else {
        decimal(n / 10).push(digit((n % 10) as int))
    }
}

/// `n` in decimal, with a minus sign where it is negative.
pub open spec fn signed_decimal(n: int) -> Seq<char> {
    if n < 0 {
        seq!['-'] + decimal((-n) as nat)
    } else {
        decimal(n as nat)
    }
}

fn digit_of(d: u64) -> (r: char)
    requires
        d < 10,
    ensures
        r == digit(d as int),
{
    (48u8 + d as u8) as char
}

/// `n` in decimal.
pub fn decimal_text(n: u64) -> (r: String)
    ensures
        r@ == decimal(n as nat),
    decreases n,
{
    if n < 10 {
        let mut r = String::new();
        r.push(digit_of(n));
        assert(r@ == seq![digit(n as int)]);
        r
    } else {
        let mut r = decimal_text(n / 10);
        r.push(digit_of(n % 10));
        r
    }
}

/// `n` in decimal, with a minus sign where it is negative.
pub fn signed_text(n: i32) -> (r: String)
    ensures
        r@ == signed_decimal(n as int),
{
    if n < 0 {
        let mut r = String::new();
        r.push('-');
        let rest = decimal_text((-(n as i64)) as u64);
        r.append(rest.as_str());
        assert(r@ == signed_decimal(n as int));
        r
    } else {
        decimal_text(n as u64)
    }
}

/// The text, where there is one.
pub open spec fn opt_view(s: Option<String>) -> Option<Seq<char>> {
    match s {
        Some(t) => Some(t@),
        None => None,
    }
}

/// The views of `parts`, in order.
pub open spec fn str_views(parts: Seq<&'static str>) -> Seq<Seq<char>> {
    parts.map_values(|p: &'static str| p@)
}

/// `parts` as owned strings.
pub fn owned(parts: &Vec<&'static str>) -> (r: Vec<String>)
    ensures
        views(r@) == str_views(parts@),
{
    let mut r: Vec<String> = Vec::new();
    let mut i: usize = 0;
    while i < parts.len()
        invariant
            i <= parts@.len(),
            r@.len() == i,
            forall|k: int| 0 <= k < i ==> (#[trigger] r@[k])@ == parts@[k]@,
        decreases parts@.len() - i,
    {
        r.push(parts[i].to_owned());
        i = i + 1;
    }
    assert(views(r@) == str_views(parts@));
    r
}

/// `n` blanks.
pub open spec fn blanks(n: int) -> Seq<char> {
    Seq::new(
        if n > 0 {
            n as nat
        } else {
            0
        },
        |i: int| ' ',
    )
}

/// `s` with blanks after it, up to `width` characters.
pub open spec fn left_aligned(s: Seq<char>, width: int) -> Seq<char> {
    s + blanks(width - s.len())
}

/// `s` with blanks before it, up to `width` characters.
pub open spec fn right_aligned(s: Seq<char>, width: int) -> Seq<char> {
    blanks(width - s.len()) + s
}

/// The blanks that a text of `len` characters needs to fill `width`.
fn blanks_for(len: usize, width: usize) -> (r: String)
    ensures
        r@ == blanks(width - len),
{
    let mut r = String::new();
    let mut i: usize = len;
    assert(r@ =~= blanks(0));
    while i < width
        invariant
            len <= i,
            i <= width || i == len,
            r@ == blanks(i - len),
        decreases width - i,
    {
        r.push(' ');
        assert(blanks(i + 1 - len) =~= blanks(i - len).push(' '));
        i = i + 1;
    }
    assert(r@ =~= blanks(width - len));
    r
}

/// `s` with blanks after it, up to `width` characters.
pub fn align_left(s: &str, width: usize) -> (r: String)
    ensures
        r@ == left_aligned(s@, width as int),
{
    s.to_owned().concat(blanks_for(s.unicode_len(), width).as_str())
}

/// `s` with blanks before it, up to `width` characters.
pub fn align_right(s: &str, width: usize) -> (r: String)
    ensures
        r@ == right_aligned(s@, width as int),
{
    blanks_for(s.unicode_len(), width).concat(s)
}

/// Whether `c` is a decimal digit.
pub open spec fn is_digit(c: char) -> bool {
    '0' <= c <= '9'
}

/// The number that the digits `s` stand for.
pub open spec fn digits_value(s: Seq<char>) -> nat
    decreases s.len(),
{
    if s.len() == 0 {
        0
    } else {
        digits_value(s.drop_last()) * 10 + (s.last() as u32 - '0' as u32) as nat
    }
}

/// `s` without one plus sign before it.
pub open spec fn unsigned(s: Seq<char>) -> Seq<char> {
    if s.len() > 0 && s[0] == '+' {
        s.drop_first()
    } else {
        s
    }
}

/// Whether `s` holds nothing but decimal digits.
pub open spec fn all_digits(s: Seq<char>) -> bool {
    forall|i: int| 0 <= i < s.len() ==> is_digit(#[trigger] s[i])
}

/// The number that `s` stands for: decimal digits, maybe after a plus sign.
pub open spec fn number_in(s: Seq<char>) -> Option<nat> {
    if unsigned(s).len() > 0 && all_digits(unsigned(s)) {
        Some(digits_value(unsigned(s)))
    } else {
        None
    }
}

proof fn lemma_digits_grow(s: Seq<char>, n: int)
    requires
        0 <= n <= s.len(),
    ensures
        digits_value(s.take(n)) <= digits_value(s),
    decreases s.len() - n,
{
    if n < s.len() {
        lemma_digits_grow(s, n + 1);
        assert(s.take(n + 1).drop_last() == s.take(n));
    } else {
        assert(s.take(n) == s);
    }
}

/// The number that `s` stands for, where it fits.
pub fn parse_number(s: &str) -> (r: Option<usize>)
    ensures
        r == match number_in(s@) {
            Some(n) => if n <= usize::MAX {
                Some(n as usize)
            } else {
                None
            },
            None => None,
        },
{
    let v = characters(s);
    let start: usize = if v.len() > 0 && v[0] == '+' {
        1
    } else {
        0
    };
    let ghost digits = v@.skip(start as int);
    assert(digits =~= unsigned(s@));
    if start == v.len() {
        return None;
    }
    let mut i: usize = start;
    let mut all: bool = true;
    while i < v.len()
        invariant
            start <= i <= v@.len(),
            digits == v@.skip(start as int),
            all == (forall|k: int| 0 <= k < i - start ==> is_digit(#[trigger] digits[k])),
        decreases v@.len() - i,
    {
        assert(digits[i - start] == v@[i as int]);
        if !('0' <= v[i] && v[i] <= '9') {
            all = false;
        }
        i = i + 1;
    }
    if !all {
        return None;
    }
    let mut n: usize = 0;
    let mut j: usize = start;
    while j < v.len()
        invariant
            start <= j <= v@.len(),
            v@ == s@,
            digits == v@.skip(start as int),
            forall|k: int| 0 <= k < digits.len() ==> is_digit(#[trigger] digits[k]),
            number_in(s@) == Some(digits_value(digits)),
            n == digits_value(digits.take(j - start)),
        decreases v@.len() - j,
    {
        assert(digits[j - start] == v@[j as int]);
        let d: usize = (v[j] as u32 - '0' as u32) as usize;
        proof {
            assert(digits.take(j - start + 1).drop_last() == digits.take(j - start));
            lemma_digits_grow(digits, j - start + 1);
        }
        if n > (usize::MAX - d) / 10 {
            return None;
        }
        n = n * 10 + d;
        j = j + 1;
    }
    assert(digits.take(digits.len() as int) == digits);
    Some(n)
}

} // verus!
