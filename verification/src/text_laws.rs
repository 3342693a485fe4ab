//! What holds of texts, whatever they are used for: trimming, lines, pieces, order and
//! numbers.
use crate::numeral::{
    all_digits, decimal, decimal_value, signed_decimal, unsigned_value, zero_padded,
};
use crate::text::{
    after_prefix, before, before_suffix, char_at, cut_at, drop_spaces, find_from, first_chars,
    joined, lemma_find_from, line_end, lines_from, lines_of, lower_char, lowered, occurs_at, pieces,
    pieces_from, replaced, replaced_from, skip_spaces, space, trimmed, trimmed_end, trimmed_start,
};
use vstd::prelude::*;
use vstd::string::*;

verus! {

/// Whether a text is nothing but white space.
pub open spec fn blank(s: Seq<char>) -> bool {
    forall|i: int| 0 <= i < s.len() ==> space(#[trigger] s[i])
}

/// Blanks, tabs and line ends are white space, and what is printed is not.
pub proof fn law_what_is_white_space(c: char)
    ensures
        space(' ') && space('\t') && space('\n') && space('\r'),
        '!' <= c && c <= '~' ==> !space(c),
{
}

proof fn lemma_skip_at(s: Seq<char>, pos: int, to: int)
    requires
        0 <= pos <= to <= s.len(),
        forall|i: int| pos <= i < to ==> space(#[trigger] s[i]),
        to == s.len() || !space(s[to]),
    ensures
        skip_spaces(s, pos) == to,
    decreases to - pos,
{
    if pos < to {
        lemma_skip_at(s, pos + 1, to);
    }
}

proof fn lemma_drop_at(s: Seq<char>, end: int, to: int)
    requires
        0 <= to <= end <= s.len(),
        forall|i: int| to <= i < end ==> space(#[trigger] s[i]),
        to == 0 || !space(s[to - 1]),
    ensures
        drop_spaces(s, end) == to,
    decreases end,
{
    if to < end {
        lemma_drop_at(s, end - 1, to);
    }
}

/// Trimming takes off exactly the white space around a text, and trimming one end leaves the
/// other alone.
pub proof fn law_trimming_takes_off_white_space(a: Seq<char>, s: Seq<char>, b: Seq<char>)
    requires
        blank(a),
        blank(b),
    ensures
        s.len() > 0 && !space(s[0]) && !space(s.last()) ==> trimmed(a + s + b) == s,
        s.len() > 0 && !space(s[0]) ==> trimmed_start(a + s) == s,
        s.len() > 0 && !space(s.last()) ==> trimmed_end(s + b) == s,
        trimmed(a) == Seq::<char>::empty(),
        trimmed_end(b) == Seq::<char>::empty(),
{
    if s.len() > 0 && !space(s[0]) {
        let t = a + s;
        lemma_skip_at(t, 0, a.len() as int);
        assert(t.subrange(a.len() as int, t.len() as int) =~= s);
    }
    if s.len() > 0 && !space(s.last()) {
        let t = s + b;
        lemma_drop_at(t, t.len() as int, s.len() as int);
        assert(t.subrange(0, s.len() as int) =~= s);
    }
    if s.len() > 0 && !space(s[0]) && !space(s.last()) {
        let t = a + s + b;
        lemma_skip_at(t, 0, a.len() as int);
        assert(trimmed_start(t) =~= s + b);
    }
    lemma_skip_at(a, 0, a.len() as int);
    assert(trimmed_start(a) =~= Seq::<char>::empty());
    lemma_drop_at(Seq::<char>::empty(), 0, 0);
    assert(trimmed(a) =~= Seq::<char>::empty());
    lemma_drop_at(b, b.len() as int, 0);
    assert(trimmed_end(b) =~= Seq::<char>::empty());
}

proof fn lemma_line_end_at(s: Seq<char>, pos: int, to: int)
    requires
        0 <= pos <= to <= s.len(),
        forall|i: int| pos <= i < to ==> #[trigger] s[i] != '\n',
        to == s.len() || s[to] == '\n',
    ensures
        line_end(s, pos) == to,
    decreases to - pos,
{
    if pos < to {
        lemma_line_end_at(s, pos + 1, to);
    }
}

proof fn lemma_lines_behind(a: Seq<char>, b: Seq<char>, pos: int)
    requires
        0 <= pos <= b.len(),
    ensures
        lines_from(a + b, a.len() + pos) == lines_from(b, pos),
    decreases b.len() - pos,
{
    let s = a + b;
    if pos < b.len() {
        lemma_line_end_behind(a, b, pos);
        let end = line_end(b, pos);
        lemma_line_end_bounds(b, pos);
        if end < b.len() {
            assert(s.subrange(a.len() + pos, a.len() + end) =~= b.subrange(pos, end));
            lemma_lines_behind(a, b, end + 1);
        } else {
            assert(s.subrange(a.len() + pos, s.len() as int) =~= b.subrange(pos, b.len() as int));
        }
    }
}

proof fn lemma_line_end_bounds(s: Seq<char>, pos: int)
    requires
        0 <= pos <= s.len(),
    ensures
        pos <= line_end(s, pos) <= s.len(),
    decreases s.len() - pos,
{
    if pos < s.len() && s[pos] != '\n' {
        lemma_line_end_bounds(s, pos + 1);
    }
}

proof fn lemma_line_end_behind(a: Seq<char>, b: Seq<char>, pos: int)
    requires
        0 <= pos <= b.len(),
    ensures
        line_end(a + b, a.len() + pos) == a.len() + line_end(b, pos),
    decreases b.len() - pos,
{
    if pos < b.len() && b[pos] != '\n' {
        lemma_line_end_behind(a, b, pos + 1);
    }
}

/// Whether a text holds no line feed.
pub open spec fn unbroken(s: Seq<char>) -> bool {
    forall|i: int| 0 <= i < s.len() ==> #[trigger] s[i] != '\n'
}

/// A line is what stands before a line feed, or before a carriage return and a line feed,
/// with nothing taken from it; the lines behind it are read as if they stood alone.
pub proof fn law_lines_end_at_line_feeds(line: Seq<char>, rest: Seq<char>)
    requires
        unbroken(line),
        line.len() == 0 || line.last() != '\r',
    ensures
        lines_of(line + seq!['\n'] + rest) == seq![line] + lines_of(rest),
        lines_of(line + seq!['\r', '\n'] + rest) == seq![line] + lines_of(rest),
        line.len() > 0 ==> lines_of(line) == seq![line],
        lines_of(Seq::empty()) == Seq::<Seq<char>>::empty(),
{
    let n = line.len() as int;
    let s = line + seq!['\n'] + rest;
    lemma_line_end_at(s, 0, n);
    assert(s.subrange(0, n) =~= line);
    assert(s =~= (line + seq!['\n']) + rest);
    lemma_lines_behind(line + seq!['\n'], rest, 0);
    let t = line + seq!['\r', '\n'] + rest;
    assert forall|i: int| 0 <= i < n + 1 implies #[trigger] t[i] != '\n' by {
        if i < n {
            assert(t[i] == line[i]);
        }
    }
    lemma_line_end_at(t, 0, n + 1);
    assert(t.subrange(0, n + 1).drop_last() =~= line);
    assert(t.subrange(0, n + 1).last() == '\r');
    lemma_lines_behind(line + seq!['\r', '\n'], rest, 0);
    if n > 0 {
        lemma_line_end_at(line, 0, n);
        assert(line.subrange(0, n) =~= line);
    }
}

/// Whether a character stands nowhere in a text.
pub open spec fn lacks(s: Seq<char>, c: char) -> bool {
    forall|i: int| 0 <= i < s.len() ==> #[trigger] s[i] != c
}

proof fn lemma_char_at_is(s: Seq<char>, c: char, pos: int, to: int)
    requires
        0 <= pos <= to <= s.len(),
        forall|i: int| pos <= i < to ==> #[trigger] s[i] != c,
        to == s.len() || s[to] == c,
    ensures
        char_at(s, c, pos) == to,
    decreases to - pos,
{
    if pos < to {
        lemma_char_at_is(s, c, pos + 1, to);
    }
}

proof fn lemma_char_at_bounds(s: Seq<char>, c: char, pos: int)
    requires
        0 <= pos <= s.len(),
    ensures
        pos <= char_at(s, c, pos) <= s.len(),
    decreases s.len() - pos,
{
    if pos < s.len() && s[pos] != c {
        lemma_char_at_bounds(s, c, pos + 1);
    }
}

proof fn lemma_char_at_behind(a: Seq<char>, b: Seq<char>, c: char, pos: int)
    requires
        0 <= pos <= b.len(),
    ensures
        char_at(a + b, c, a.len() + pos) == a.len() + char_at(b, c, pos),
    decreases b.len() - pos,
{
    if pos < b.len() && b[pos] != c {
        lemma_char_at_behind(a, b, c, pos + 1);
    }
}

proof fn lemma_pieces_behind(a: Seq<char>, b: Seq<char>, c: char, pos: int)
    requires
        0 <= pos <= b.len(),
    ensures
        pieces_from(a + b, c, a.len() + pos) == pieces_from(b, c, pos),
    decreases b.len() - pos,
{
    let s = a + b;
    lemma_char_at_behind(a, b, c, pos);
    lemma_char_at_bounds(b, c, pos);
    let end = char_at(b, c, pos);
    if end < b.len() {
        assert(s.subrange(a.len() + pos, a.len() + end) =~= b.subrange(pos, end));
        lemma_pieces_behind(a, b, c, end + 1);
    } else {
        assert(s.subrange(a.len() + pos, s.len() as int) =~= b.subrange(pos, b.len() as int));
    }
}

/// A text is parted at every place of the separator and nowhere else, and cut at the first.
pub proof fn law_pieces_end_at_separators(head: Seq<char>, c: char, rest: Seq<char>)
    requires
        lacks(head, c),
    ensures
        pieces(head + seq![c] + rest, c) == seq![head] + pieces(rest, c),
        pieces(head, c) == seq![head],
        cut_at(head + seq![c] + rest, c) == Some((head, rest)),
        cut_at(head, c) is None,
{
    let n = head.len() as int;
    let s = head + seq![c] + rest;
    lemma_char_at_is(s, c, 0, n);
    assert(s.subrange(0, n) =~= head);
    lemma_pieces_behind(head + seq![c], rest, c, 0);
    assert(s.take(n) =~= head);
    assert(s.skip(n + 1) =~= rest);
    lemma_char_at_is(head, c, 0, n);
    assert(head.subrange(0, n) =~= head);
}

/// Joining puts the parts one after the other, each whole, with the separator between.
pub proof fn law_joining_keeps_the_parts(a: Seq<char>, rest: Seq<Seq<char>>, sep: Seq<char>)
    ensures
        joined(seq![a], sep) == a,
        joined(Seq::empty(), sep) == Seq::<char>::empty(),
        rest.len() > 0 ==> joined(seq![a] + rest, sep) == a + sep + joined(rest, sep),
    decreases rest.len(),
{
    if rest.len() == 1 {
        let all = seq![a] + rest;
        assert(all.drop_last() =~= seq![a]);
        assert(all.last() == rest[0]);
        assert(joined(seq![a], sep) == a);
        assert(joined(all, sep) == joined(seq![a], sep) + sep + rest[0]);
        assert(joined(rest, sep) == rest[0]);
    } else if rest.len() > 1 {
        let all = seq![a] + rest;
        law_joining_keeps_the_parts(a, rest.drop_last(), sep);
        assert(all.drop_last() =~= seq![a] + rest.drop_last());
        assert(all.last() == rest.last());
        assert(joined(all, sep) =~= a + sep + joined(rest, sep));
    }
}

/// What is taken off the front or the end of a text is what was put there.
pub proof fn law_prefixes_and_suffixes_come_off(p: Seq<char>, t: Seq<char>)
    ensures
        after_prefix(p + t, p) == Some(t),
        before_suffix(t + p, p) == Some(t),
        after_prefix(t, p) matches Some(rest) ==> t == p + rest,
        before_suffix(t, p) matches Some(head) ==> t == head + p,
{
    let s = p + t;
    assert(s.subrange(0, p.len() as int) =~= p);
    assert(s.subrange(p.len() as int, s.len() as int) =~= t);
    let u = t + p;
    assert(u.subrange(t.len() as int, u.len() as int) =~= p);
    assert(u.subrange(0, t.len() as int) =~= t);
    if after_prefix(t, p) is Some {
        assert(t =~= t.subrange(0, p.len() as int) + t.subrange(p.len() as int, t.len() as int));
    }
    if before_suffix(t, p) is Some {
        let k = t.len() - p.len();
        assert(t =~= t.subrange(0, k) + t.subrange(k, t.len() as int));
    }
}

/// Where nothing is to be replaced a text stays as it is, and the first place of what is
/// replaced is filled with exactly what replaces it.
pub proof fn law_replacing_touches_nothing_else(s: Seq<char>, from: Seq<char>, to: Seq<char>)
    requires
        from.len() > 0,
    ensures
        (forall|i: int| !#[trigger] occurs_at(s, from, i)) ==> replaced(s, from, to) == s,
        find_from(s, from, 0) matches Some(at) ==> s.take(at).is_prefix_of(replaced(s, from, to))
            && to.is_prefix_of(replaced(s, from, to).skip(at)),
{
    lemma_find_from(s, from, 0);
    if find_from(s, from, 0) is None {
        assert(s.subrange(0, s.len() as int) =~= s);
    } else {
        let at = find_from(s, from, 0)->0;
        let rest = replaced_from(s, from, to, at + from.len());
        let r = replaced(s, from, to);
        assert(r == s.subrange(0, at) + to + rest);
        assert(r.subrange(0, at) =~= s.take(at));
        assert(r.skip(at).subrange(0, to.len() as int) =~= to);
    }
}

/// Making letters small changes capitals and nothing else, and keeps every place.
pub proof fn law_lowering_keeps_places(s: Seq<char>, i: int)
    requires
        0 <= i < s.len(),
    ensures
        lowered(s).len() == s.len(),
        !('A' <= s[i] && s[i] <= 'Z') ==> lowered(s)[i] == s[i],
        'A' <= s[i] && s[i] <= 'Z' ==> lowered(s)[i] as u32 == s[i] as u32 + 32,
        lowered(lowered(s)) == lowered(s),
{
    assert forall|k: int| 0 <= k < s.len() implies lowered(lowered(s))[k] == lowered(s)[k] by {
        let c = s[k];
        assert(lowered(s)[k] == lower_char(c));
        lemma_lower_twice(c);
    }
    assert(lowered(lowered(s)) =~= lowered(s));
    lemma_lower_twice(s[i]);
}

proof fn lemma_lower_twice(c: char)
    ensures
        lower_char(lower_char(c)) == lower_char(c),
        'A' <= c && c <= 'Z' ==> lower_char(c) as u32 == c as u32 + 32,
{
}

/// Two texts are ordered by the first place at which they differ, and a text comes before
/// everything that it begins.
pub proof fn law_the_first_difference_decides(
    p: Seq<char>,
    x: char,
    y: char,
    a: Seq<char>,
    b: Seq<char>,
)
    ensures
        x != y ==> (before(p + seq![x] + a, p + seq![y] + b) <==> x < y),
        before(p, p + seq![x] + a),
        !before(p, p),
        !before(p + seq![x] + a, p),
    decreases p.len(),
{
    let l = p + seq![x] + a;
    let r = p + seq![y] + b;
    if p.len() == 0 {
        assert(l[0] == x && r[0] == y);
    } else {
        let q = p.drop_first();
        law_the_first_difference_decides(q, x, y, a, b);
        assert(l.drop_first() =~= q + seq![x] + a);
        assert(r.drop_first() =~= q + seq![y] + b);
        assert(l[0] == p[0] && r[0] == p[0]);
    }
}

/// The start of a text is the whole text or exactly as many of its characters as asked for.
pub proof fn law_starts_are_cut_to_length(s: Seq<char>, n: nat)
    ensures
        first_chars(s, n as int).is_prefix_of(s),
        s.len() <= n ==> first_chars(s, n as int) == s,
        s.len() > n ==> first_chars(s, n as int).len() == n,
{
    assert(s.subrange(0, first_chars(s, n as int).len() as int) =~= first_chars(s, n as int));
}

/// A number that is written is read as itself, is made of digits, and has no zero in front.
pub proof fn law_numbers_are_read_back(n: nat)
    ensures
        decimal_value(decimal(n)) == n,
        all_digits(decimal(n)),
        decimal(n).len() > 0,
        decimal(n)[0] == '0' ==> n == 0,
        unsigned_value(decimal(n)) == Some(n),
        signed_decimal(n as int) == decimal(n),
        n > 0 ==> signed_decimal(-n) == seq!['-'] + decimal(n),
    decreases n,
{
    if n >= 10 {
        law_numbers_are_read_back(n / 10);
        assert(decimal(n).drop_last() =~= decimal(n / 10));
        assert forall|i: int| 0 <= i < decimal(n).len() implies crate::text::digit(
            #[trigger] decimal(n)[i],
        ) by {
            if i < decimal(n / 10).len() {
                assert(decimal(n)[i] == decimal(n / 10)[i]);
            }
        }
        assert(decimal(n)[0] == decimal(n / 10)[0]);
    } else {
        let s = decimal(n);
        assert(s.drop_last() =~= Seq::<char>::empty());
        assert(decimal_value(s.drop_last()) == 0);
    }
}

/// Digits are read by their places, and zeros in front change nothing but the length.
pub proof fn law_digits_are_read_by_place(s: Seq<char>, c: char, width: nat)
    requires
        '0' <= c && c <= '9',
    ensures
        decimal_value(s.push(c)) == 10 * decimal_value(s) + (c as u32 - '0' as u32),
        zero_padded(s, width as int).len() >= width,
        zero_padded(s, width as int).len() >= s.len(),
        s.len() >= width ==> zero_padded(s, width as int) == s,
        s.is_suffix_of(zero_padded(s, width as int)),
        s.len() < width ==> zero_padded(s, width as int).len() == width && zero_padded(
            s,
            width as int,
        )[0] == '0',
{
    assert(s.push(c).drop_last() =~= s);
    let z = zero_padded(s, width as int);
    assert(z.subrange(z.len() - s.len(), z.len() as int) =~= s);
    if s.len() >= width {
        assert(z =~= s);
    }
}

/// Making letters capital changes small letters and nothing else, and keeps every place.
pub proof fn law_raising_keeps_places(s: Seq<char>, i: int)
    requires
        0 <= i < s.len(),
    ensures
        crate::text::uppered(s).len() == s.len(),
        !('a' <= s[i] && s[i] <= 'z') ==> crate::text::uppered(s)[i] == s[i],
        'a' <= s[i] && s[i] <= 'z' ==> crate::text::uppered(s)[i] as u32 == s[i] as u32 - 32,
{
    let n = (s[i] as u32) - 32;
    if 'a' <= s[i] && s[i] <= 'z' {
        assert((n as char) as u32 == n);
    }
}

} // verus!
