//! Text as sequences of characters: the searching, trimming, splitting and
//! joining that the rest of the library states its contracts in.
use vstd::prelude::*;
use vstd::string::*;

verus! {

/// `String::push` of the standard library: the character is appended at the end.
pub assume_specification[ String::push ](s: &mut String, c: char)
    ensures
        final(s)@ == old(s)@.push(c),
;

/// The characters with Unicode's `White_Space` property.
pub open spec fn space(c: char) -> bool {
    let n = c as u32;
    ||| 0x09 <= n <= 0x0d
    ||| n == 0x20
    ||| n == 0x85
    ||| n == 0xa0
    ||| n == 0x1680
    ||| 0x2000 <= n <= 0x200a
    ||| n == 0x2028
    ||| n == 0x2029
    ||| n == 0x202f
    ||| n == 0x205f
    ||| n == 0x3000
}

/// Whether `c` is white space.
pub fn is_space(c: char) -> (r: bool)
    ensures
        r == space(c),
{
    let n: u32 = c as u32;
    (0x09 <= n && n <= 0x0d) || n == 0x20 || n == 0x85 || n == 0xa0 || n == 0x1680 || (0x2000 <= n
        && n <= 0x200a) || n == 0x2028 || n == 0x2029 || n == 0x202f || n == 0x205f || n == 0x3000
}

/// The control characters of Unicode's category `Cc`.
pub open spec fn control(c: char) -> bool {
    (c as u32) <= 0x1f || 0x7f <= (c as u32) <= 0x9f
}

/// Whether `c` is a control character.
pub fn is_control(c: char) -> (r: bool)
    ensures
        r == control(c),
{
    let n: u32 = c as u32;
    n <= 0x1f || (0x7f <= n && n <= 0x9f)
}

pub open spec fn digit(c: char) -> bool {
    '0' <= c && c <= '9'
}

pub open spec fn lower(c: char) -> bool {
    'a' <= c && c <= 'z'
}

pub open spec fn upper(c: char) -> bool {
    'A' <= c && c <= 'Z'
}

pub open spec fn alpha(c: char) -> bool {
    lower(c) || upper(c)
}

pub fn is_digit(c: char) -> (r: bool)
    ensures
        r == digit(c),
{
    '0' <= c && c <= '9'
}

pub fn is_lower(c: char) -> (r: bool)
    ensures
        r == lower(c),
{
    'a' <= c && c <= 'z'
}

pub fn is_alpha(c: char) -> (r: bool)
    ensures
        r == alpha(c),
{
    ('a' <= c && c <= 'z') || ('A' <= c && c <= 'Z')
}

/// The characters of `s`, in order.
pub fn chars_of(s: &str) -> (v: Vec<char>)
    ensures
        v@ == s@,
{
    let mut v: Vec<char> = Vec::new();
    for c in it: s.chars()
        invariant
            it.seq() == s@,
            v@ == s@.take(it.index() as int),
    {
        v.push(c);
    }
    v
}

/// The characters `v[from..to]` as a string.
pub fn string_of(v: &Vec<char>, from: usize, to: usize) -> (s: String)
    requires
        from <= to <= v@.len(),
    ensures
        s@ == v@.subrange(from as int, to as int),
{
    let mut s = String::new();
    let mut i: usize = from;
    while i < to
        invariant
            from <= i <= to <= v@.len(),
            s@ == v@.subrange(from as int, i as int),
        decreases to - i,
    {
        s.push(v[i]);
        i += 1;
    }
    s
}

/// Whether two texts hold the same characters.
pub fn equal(a: &str, b: &str) -> (r: bool)
    ensures
        r == (a@ == b@),
{
    let x = a.to_owned();
    let y = b.to_owned();
    x == y
}

/// Whether `p` stands in `s` at position `i`.
pub open spec fn occurs_at(s: Seq<char>, p: Seq<char>, i: int) -> bool {
    0 <= i && i + p.len() <= s.len() && s.subrange(i, i + p.len()) == p
}

/// Whether `p` stands anywhere in `s`.
pub open spec fn contains_text(s: Seq<char>, p: Seq<char>) -> bool {
    exists|i: int| occurs_at(s, p, i)
}

pub open spec fn starts(s: Seq<char>, p: Seq<char>) -> bool {
    occurs_at(s, p, 0)
}

pub open spec fn ends(s: Seq<char>, p: Seq<char>) -> bool {
    occurs_at(s, p, s.len() - p.len())
}

/// The first position from `pos` on at which `p` stands in `s`.
pub open spec fn find_from(s: Seq<char>, p: Seq<char>, pos: int) -> Option<int>
    decreases s.len() - pos,
{
    if pos < 0 || pos + p.len() > s.len() {
        None
    } else if occurs_at(s, p, pos) {
        Some(pos)
    } else if pos >= s.len() {
        None
    } else {
        find_from(s, p, pos + 1)
    }
}

/// What [`find_from`] finds is the first occurrence, and it misses none.
pub proof fn lemma_find_from(s: Seq<char>, p: Seq<char>, pos: int)
    requires
        0 <= pos,
    ensures
        match find_from(s, p, pos) {
            Some(i) => pos <= i && occurs_at(s, p, i) && forall|j: int|
                pos <= j < i ==> !occurs_at(s, p, j),
            None => forall|j: int| pos <= j ==> !occurs_at(s, p, j),
        },
    decreases s.len() - pos,
{
    if pos + p.len() > s.len() || occurs_at(s, p, pos) || pos >= s.len() {
    } else {
        lemma_find_from(s, p, pos + 1);
        assert forall|j: int| pos <= j && (match find_from(s, p, pos) {
            Some(i) => j < i,
            None => true,
        }) implies !occurs_at(s, p, j) by {
            if j > pos {
                assert(pos + 1 <= j);
            }
        }
    }
}

/// Whether `p` stands in `s` at position `i`.
pub fn is_at(s: &Vec<char>, p: &Vec<char>, i: usize) -> (r: bool)
    ensures
        r == occurs_at(s@, p@, i as int),
{
    if i > s.len() || p.len() > s.len() - i {
        return false;
    }
    let mut k: usize = 0;
    while k < p.len()
        invariant
            i + p@.len() <= s.len(),
            k <= p@.len(),
            forall|m: int| 0 <= m < k ==> s@[i + m] == p@[m],
        decreases p@.len() - k,
    {
        if s[i + k] != p[k] {
            assert(s@.subrange(i as int, i + p@.len())[k as int] != p@[k as int]);
            return false;
        }
        k += 1;
    }
    assert(s@.subrange(i as int, i + p@.len()) =~= p@);
    true
}

/// The first position from `pos` on at which `p` stands in `s`.
pub fn find_chars(s: &Vec<char>, p: &Vec<char>, pos: usize) -> (r: Option<usize>)
    ensures
        match r {
            Some(i) => find_from(s@, p@, pos as int) == Some(i as int),
            None => find_from(s@, p@, pos as int) is None,
        },
{
    let mut i: usize = pos;
    if p.len() > s.len() {
        return None;
    }
    let last: usize = s.len() - p.len();
    while i <= last
        invariant
            last + p@.len() == s@.len(),
            pos <= i,
            i <= last ==> find_from(s@, p@, pos as int) == find_from(s@, p@, i as int),
            i > last ==> find_from(s@, p@, pos as int) is None,
        decreases last + 1 - i,
    {
        if is_at(s, p, i) {
            return Some(i);
        }
        if i == last {
            assert(find_from(s@, p@, i + 1) is None);
            return None;
        }
        i += 1;
    }
    None
}

/// Whether `p` stands anywhere in `s`.
pub fn contains(s: &str, p: &str) -> (r: bool)
    ensures
        r == contains_text(s@, p@),
{
    let a = chars_of(s);
    let b = chars_of(p);
    proof {
        lemma_find_from(s@, p@, 0);
    }
    find_chars(&a, &b, 0).is_some()
}

pub fn starts_with(s: &str, p: &str) -> (r: bool)
    ensures
        r == starts(s@, p@),
{
    let a = chars_of(s);
    let b = chars_of(p);
    is_at(&a, &b, 0)
}

pub fn ends_with(s: &str, p: &str) -> (r: bool)
    ensures
        r == ends(s@, p@),
{
    let a = chars_of(s);
    let b = chars_of(p);
    if b.len() > a.len() {
        return false;
    }
    is_at(&a, &b, a.len() - b.len())
}

/// What follows `p` in `s`, where `s` starts with `p`.
pub open spec fn after_prefix(s: Seq<char>, p: Seq<char>) -> Option<Seq<char>> {
    if starts(s, p) {
        Some(s.subrange(p.len() as int, s.len() as int))
    } else {
        None
    }
}

/// What precedes `p` in `s`, where `s` ends with `p`.
pub open spec fn before_suffix(s: Seq<char>, p: Seq<char>) -> Option<Seq<char>> {
    if ends(s, p) {
        Some(s.subrange(0, s.len() - p.len()))
    } else {
        None
    }
}

pub open spec fn text_option(o: Option<String>) -> Option<Seq<char>> {
    match o {
        Some(s) => Some(s@),
        None => None,
    }
}

pub fn strip_prefix(s: &str, p: &str) -> (r: Option<String>)
    ensures
        text_option(r) == after_prefix(s@, p@),
{
    let a = chars_of(s);
    let b = chars_of(p);
    if is_at(&a, &b, 0) {
        Some(string_of(&a, b.len(), a.len()))
    } else {
        None
    }
}

pub fn strip_suffix(s: &str, p: &str) -> (r: Option<String>)
    ensures
        text_option(r) == before_suffix(s@, p@),
{
    let a = chars_of(s);
    let b = chars_of(p);
    if b.len() <= a.len() && is_at(&a, &b, a.len() - b.len()) {
        Some(string_of(&a, 0, a.len() - b.len()))
    } else {
        None
    }
}

/// The texts that a list of strings holds.
pub open spec fn texts(v: Seq<String>) -> Seq<Seq<char>> {
    v.map_values(|s: String| s@)
}

pub proof fn lemma_texts_push(v: Seq<String>, s: String)
    ensures
        texts(v.push(s)) == texts(v).push(s@),
{
    assert(texts(v.push(s)) =~= texts(v).push(s@));
}

/// `s` from `pos` on with every occurrence of `from` replaced by `to`, leftmost
/// first, without looking again at what was put in.
pub open spec fn replaced_from(s: Seq<char>, from: Seq<char>, to: Seq<char>, pos: int) -> Seq<char>
    decreases s.len() - pos,
{
    match find_from(s, from, pos) {
        Some(i) => if 0 <= pos <= i && i + from.len() <= s.len() && from.len() > 0 {
            s.subrange(pos, i) + to + replaced_from(s, from, to, i + from.len())
        } else {
            s.subrange(pos, s.len() as int)
        },
        None => s.subrange(pos, s.len() as int),
    }
}

pub open spec fn replaced(s: Seq<char>, from: Seq<char>, to: Seq<char>) -> Seq<char> {
    replaced_from(s, from, to, 0)
}

/// `s` with every occurrence of `from` replaced by `to`.
pub fn replace(s: &str, from: &str, to: &str) -> (r: String)
    requires
        from@.len() > 0,
    ensures
        r@ == replaced(s@, from@, to@),
{
    let a = chars_of(s);
    let b = chars_of(from);
    let mut out = String::new();
    let mut pos: usize = 0;
    while pos <= a.len()
        invariant
            a@ == s@,
            b@ == from@,
            b@.len() > 0,
            pos <= a@.len(),
            out@ + replaced_from(s@, from@, to@, pos as int) == replaced(s@, from@, to@),
        decreases a@.len() - pos,
    {
        proof {
            lemma_find_from(s@, from@, pos as int);
        }
        let ghost before = out@;
        match find_chars(&a, &b, pos) {
            Some(i) => {
                out.append(string_of(&a, pos, i).as_str());
                out.append(to);
                let ghost rest = replaced_from(s@, from@, to@, i + from@.len());
                assert(before + (s@.subrange(pos as int, i as int) + to@ + rest) =~= before
                    + s@.subrange(pos as int, i as int) + to@ + rest);
                pos = i + b.len();
            },
            None => {
                out.append(string_of(&a, pos, a.len()).as_str());
                return out;
            },
        }
    }
    out
}

/// The first position from `pos` on that holds no white space, or the end.
pub open spec fn skip_spaces(s: Seq<char>, pos: int) -> int
    decreases s.len() - pos,
{
    if 0 <= pos < s.len() && space(s[pos]) {
        skip_spaces(s, pos + 1)
    } else {
        pos
    }
}

/// The first position from `pos` on that holds white space, or the end.
pub open spec fn skip_word(s: Seq<char>, pos: int) -> int
    decreases s.len() - pos,
{
    if 0 <= pos < s.len() && !space(s[pos]) {
        skip_word(s, pos + 1)
    } else {
        pos
    }
}

/// The end of what is left of `s[..end]` without trailing white space.
pub open spec fn drop_spaces(s: Seq<char>, end: int) -> int
    decreases end,
{
    if 0 < end <= s.len() && space(s[end - 1]) {
        drop_spaces(s, end - 1)
    } else {
        end
    }
}

pub open spec fn trimmed_start(s: Seq<char>) -> Seq<char> {
    s.subrange(skip_spaces(s, 0), s.len() as int)
}

pub open spec fn trimmed_end(s: Seq<char>) -> Seq<char> {
    s.subrange(0, drop_spaces(s, s.len() as int))
}

/// `s` without white space at its two ends.
pub open spec fn trimmed(s: Seq<char>) -> Seq<char> {
    trimmed_end(trimmed_start(s))
}

pub proof fn lemma_skip_bounds(s: Seq<char>, pos: int)
    requires
        0 <= pos <= s.len(),
    ensures
        pos <= skip_spaces(s, pos) <= s.len(),
        pos <= skip_word(s, pos) <= s.len(),
        pos < s.len() && !space(s[pos]) ==> pos < skip_word(s, pos),
        skip_spaces(s, pos) < s.len() ==> !space(s[skip_spaces(s, pos)]),
    decreases s.len() - pos,
{
    if pos < s.len() {
        lemma_skip_bounds(s, pos + 1);
    }
}

pub proof fn lemma_drop_bounds(s: Seq<char>, end: int)
    requires
        0 <= end <= s.len(),
    ensures
        0 <= drop_spaces(s, end) <= end,
    decreases end,
{
    if end > 0 {
        lemma_drop_bounds(s, end - 1);
    }
}

/// The first position from `pos` on that holds no white space, or the end.
pub fn after_spaces(v: &Vec<char>, pos: usize) -> (r: usize)
    requires
        pos <= v@.len(),
    ensures
        r == skip_spaces(v@, pos as int),
        pos <= r <= v@.len(),
{
    let mut i: usize = pos;
    while i < v.len() && is_space(v[i])
        invariant
            pos <= i <= v@.len(),
            skip_spaces(v@, pos as int) == skip_spaces(v@, i as int),
        decreases v@.len() - i,
    {
        i += 1;
    }
    i
}

/// The first position from `pos` on that holds white space, or the end.
pub fn after_word(v: &Vec<char>, pos: usize) -> (r: usize)
    requires
        pos <= v@.len(),
    ensures
        r == skip_word(v@, pos as int),
        pos <= r <= v@.len(),
{
    let mut i: usize = pos;
    while i < v.len() && !is_space(v[i])
        invariant
            pos <= i <= v@.len(),
            skip_word(v@, pos as int) == skip_word(v@, i as int),
        decreases v@.len() - i,
    {
        i += 1;
    }
    i
}

/// `s` without leading white space.
pub fn trim_start(s: &str) -> (r: String)
    ensures
        r@ == trimmed_start(s@),
{
    let v = chars_of(s);
    let from = after_spaces(&v, 0);
    string_of(&v, from, v.len())
}

/// `s` without trailing white space.
pub fn trim_end(s: &str) -> (r: String)
    ensures
        r@ == trimmed_end(s@),
{
    let v = chars_of(s);
    let mut end: usize = v.len();
    while end > 0 && is_space(v[end - 1])
        invariant
            v@ == s@,
            end <= v@.len(),
            drop_spaces(s@, s@.len() as int) == drop_spaces(s@, end as int),
        decreases end,
    {
        end -= 1;
    }
    string_of(&v, 0, end)
}

/// `s` without white space at its two ends.
pub fn trim(s: &str) -> (r: String)
    ensures
        r@ == trimmed(s@),
{
    let t = trim_start(s);
    trim_end(t.as_str())
}

/// A text that neither starts nor ends with white space is what trimming leaves.
pub proof fn lemma_trimmed_bare(s: Seq<char>)
    requires
        s.len() > 0,
        !space(s[0]),
        !space(s.last()),
    ensures
        trimmed(s) == s,
{
    assert(trimmed_start(s) =~= s);
    assert(trimmed_end(s) =~= s);
}

/// The first line feed from `pos` on, or the end.
pub open spec fn line_end(s: Seq<char>, pos: int) -> int
    decreases s.len() - pos,
{
    if 0 <= pos < s.len() && s[pos] != '\n' {
        line_end(s, pos + 1)
    } else {
        pos
    }
}

/// A line without the carriage return that ends it.
pub open spec fn without_return(s: Seq<char>) -> Seq<char> {
    if s.len() > 0 && s.last() == '\r' {
        s.drop_last()
    } else {
        s
    }
}

/// The lines of `s` from `pos` on. A line ends at a line feed, or at a carriage
/// return followed by one; the end of the text ends a last line that is not empty.
pub open spec fn lines_from(s: Seq<char>, pos: int) -> Seq<Seq<char>>
    decreases s.len() - pos,
{
    if pos < 0 || pos >= s.len() {
        Seq::empty()
    } else {
        let end = line_end(s, pos);
        if pos <= end < s.len() {
            seq![without_return(s.subrange(pos, end))] + lines_from(s, end + 1)
        } else {
            seq![s.subrange(pos, s.len() as int)]
        }
    }
}

pub open spec fn lines_of(s: Seq<char>) -> Seq<Seq<char>> {
    lines_from(s, 0)
}

/// The lines of `s`, without what ends them.
pub fn lines(s: &str) -> (r: Vec<String>)
    ensures
        texts(r@) == lines_of(s@),
{
    let v = chars_of(s);
    let mut out: Vec<String> = Vec::new();
    let mut pos: usize = 0;
    assert(texts(out@) =~= Seq::empty());
    while pos < v.len()
        invariant
            v@ == s@,
            pos <= v@.len(),
            texts(out@) + lines_from(s@, pos as int) == lines_of(s@),
        decreases v@.len() - pos,
    {
        let mut end: usize = pos;
        while end < v.len() && v[end] != '\n'
            invariant
                v@ == s@,
                pos <= end <= v@.len(),
                line_end(s@, pos as int) == line_end(s@, end as int),
            decreases v@.len() - end,
        {
            end += 1;
        }
        let ghost before = out@;
        if end < v.len() {
            let mut stop: usize = end;
            if end > pos && v[end - 1] == '\r' {
                stop = end - 1;
            }
            let line = string_of(&v, pos, stop);
            assert(line@ == without_return(s@.subrange(pos as int, end as int)));
            out.push(line);
            proof {
                lemma_texts_push(before, line);
                assert(texts(before) + (seq![line@] + lines_from(s@, end + 1)) =~= texts(before).push(
                    line@,
                ) + lines_from(s@, end + 1));
            }
            pos = end + 1;
        } else {
            let line = string_of(&v, pos, v.len());
            out.push(line);
            proof {
                lemma_texts_push(before, line);
                assert(lines_from(s@, s@.len() as int) =~= Seq::empty());
                assert(texts(before) + seq![line@] =~= texts(before).push(line@) + Seq::empty());
            }
            pos = v.len();
        }
    }
    proof {
        assert(lines_from(s@, s@.len() as int) =~= Seq::empty());
        assert(texts(out@) + Seq::empty() =~= texts(out@));
    }
    out
}

/// The words of `s` from `pos` on: what white space parts.
pub open spec fn words_from(s: Seq<char>, pos: int) -> Seq<Seq<char>>
    decreases s.len() - pos,
{
    let start = skip_spaces(s, pos);
    let end = skip_word(s, start);
    if 0 <= pos <= start < end <= s.len() {
        seq![s.subrange(start, end)] + words_from(s, end)
    } else {
        Seq::empty()
    }
}

pub open spec fn words_of(s: Seq<char>) -> Seq<Seq<char>> {
    words_from(s, 0)
}

/// The words of `s`.
pub fn words(s: &str) -> (r: Vec<String>)
    ensures
        texts(r@) == words_of(s@),
{
    let v = chars_of(s);
    let mut out: Vec<String> = Vec::new();
    let mut pos: usize = 0;
    assert(texts(out@) =~= Seq::empty());
    loop
        invariant
            v@ == s@,
            pos <= v@.len(),
            texts(out@) + words_from(s@, pos as int) == words_of(s@),
        decreases v@.len() - pos,
    {
        let start = after_spaces(&v, pos);
        proof {
            lemma_skip_bounds(s@, pos as int);
            lemma_skip_bounds(s@, start as int);
        }
        if start == v.len() {
            assert(texts(out@) + Seq::empty() =~= texts(out@));
            return out;
        }
        let end = after_word(&v, start);
        let ghost before = out@;
        let word = string_of(&v, start, end);
        out.push(word);
        proof {
            lemma_texts_push(before, word);
            assert(texts(before) + (seq![word@] + words_from(s@, end as int)) =~= texts(before).push(
                word@,
            ) + words_from(s@, end as int));
        }
        pos = end;
    }
}

/// The first position from `pos` on that holds `c`, or the end.
pub open spec fn char_at(s: Seq<char>, c: char, pos: int) -> int
    decreases s.len() - pos,
{
    if 0 <= pos < s.len() && s[pos] != c {
        char_at(s, c, pos + 1)
    } else {
        pos
    }
}

/// The pieces of `s` from `pos` on, parted by `c`. Where `c` occurs n times there are
/// n + 1 pieces, some of them perhaps empty.
pub open spec fn pieces_from(s: Seq<char>, c: char, pos: int) -> Seq<Seq<char>>
    decreases s.len() - pos,
{
    let end = char_at(s, c, pos);
    if 0 <= pos <= end < s.len() {
        seq![s.subrange(pos, end)] + pieces_from(s, c, end + 1)
    } else {
        seq![s.subrange(pos, s.len() as int)]
    }
}

pub open spec fn pieces(s: Seq<char>, c: char) -> Seq<Seq<char>> {
    pieces_from(s, c, 0)
}

/// The pieces of `s`, parted by `c`.
pub fn split(s: &str, c: char) -> (r: Vec<String>)
    ensures
        texts(r@) == pieces(s@, c),
{
    let v = chars_of(s);
    let mut out: Vec<String> = Vec::new();
    let mut pos: usize = 0;
    assert(texts(out@) =~= Seq::empty());
    loop
        invariant
            v@ == s@,
            pos <= v@.len(),
            texts(out@) + pieces_from(s@, c, pos as int) == pieces(s@, c),
        decreases v@.len() - pos,
    {
        let mut end: usize = pos;
        while end < v.len() && v[end] != c
            invariant
                v@ == s@,
                pos <= end <= v@.len(),
                char_at(s@, c, pos as int) == char_at(s@, c, end as int),
            decreases v@.len() - end,
        {
            end += 1;
        }
        let piece = string_of(&v, pos, end);
        let ghost was = out@;
        out.push(piece);
        proof {
            lemma_texts_push(was, piece);
        }
        if end == v.len() {
            assert(texts(was) + seq![piece@] =~= texts(was).push(piece@));
            return out;
        }
        proof {
            assert(texts(was) + (seq![piece@] + pieces_from(s@, c, end + 1)) =~= texts(was).push(
                piece@,
            ) + pieces_from(s@, c, end + 1));
        }
        pos = end + 1;
    }
}

/// The parts one after the other, with `sep` between neighbours.
pub open spec fn joined(parts: Seq<Seq<char>>, sep: Seq<char>) -> Seq<char>
    decreases parts.len(),
{
    if parts.len() == 0 {
        Seq::empty()
    } else if parts.len() == 1 {
        parts[0]
    } else {
        joined(parts.drop_last(), sep) + sep + parts.last()
    }
}

/// The parts one after the other, with `sep` between neighbours.
pub fn join(parts: &Vec<String>, sep: &str) -> (r: String)
    ensures
        r@ == joined(texts(parts@), sep@),
{
    let mut out = String::new();
    let mut i: usize = 0;
    assert(texts(parts@).take(0) =~= Seq::empty());
    while i < parts.len()
        invariant
            i <= parts@.len(),
            out@ == joined(texts(parts@).take(i as int), sep@),
        decreases parts@.len() - i,
    {
        if i > 0 {
            out.append(sep);
        }
        out.append(parts[i].as_str());
        proof {
            let now = texts(parts@).take(i + 1);
            assert(now.drop_last() =~= texts(parts@).take(i as int));
            assert(now.last() == parts@[i as int]@);
            if i == 0 {
                assert(out@ =~= now[0]);
            }
        }
        i += 1;
    }
    assert(texts(parts@).take(i as int) =~= texts(parts@));
    out
}

pub open spec fn lower_char(c: char) -> char {
    if upper(c) {
        ((c as u32) + 32) as char
    } else {
        c
    }
}

pub open spec fn upper_char(c: char) -> char {
    if lower(c) {
        ((c as u32) - 32) as char
    } else {
        c
    }
}

pub open spec fn lowered(s: Seq<char>) -> Seq<char> {
    s.map_values(|c: char| lower_char(c))
}

pub open spec fn uppered(s: Seq<char>) -> Seq<char> {
    s.map_values(|c: char| upper_char(c))
}

/// A text without small letters is its own capital form.
pub proof fn lemma_uppered_same(s: Seq<char>)
    requires
        forall|i: int| 0 <= i < s.len() ==> !lower(#[trigger] s[i]),
    ensures
        uppered(s) == s,
{
    assert(uppered(s) =~= s);
}

/// `s` with its ASCII capitals made small.
pub fn to_lower(s: &str) -> (r: String)
    ensures
        r@ == lowered(s@),
{
    let v = chars_of(s);
    let mut out = String::new();
    let mut i: usize = 0;
    while i < v.len()
        invariant
            v@ == s@,
            i <= v@.len(),
            out@ == lowered(s@.take(i as int)),
        decreases v@.len() - i,
    {
        let c = v[i];
        if 'A' <= c && c <= 'Z' {
            let n: u8 = c as u8;
            out.push((n + 32) as char);
        } else {
            out.push(c);
        }
        i += 1;
        assert(out@ =~= lowered(s@.take(i as int)));
    }
    assert(s@.take(i as int) =~= s@);
    out
}

/// `s` with its small ASCII letters made capitals.
pub fn to_upper(s: &str) -> (r: String)
    ensures
        r@ == uppered(s@),
{
    let v = chars_of(s);
    let mut out = String::new();
    let mut i: usize = 0;
    while i < v.len()
        invariant
            v@ == s@,
            i <= v@.len(),
            out@ == uppered(s@.take(i as int)),
        decreases v@.len() - i,
    {
        let c = v[i];
        if 'a' <= c && c <= 'z' {
            let n: u8 = c as u8;
            out.push((n - 32) as char);
        } else {
            out.push(c);
        }
        i += 1;
        assert(out@ =~= uppered(s@.take(i as int)));
    }
    assert(s@.take(i as int) =~= s@);
    out
}

pub fn cat2(a: &str, b: &str) -> (r: String)
    ensures
        r@ == a@ + b@,
{
    a.to_owned().concat(b)
}

pub fn cat3(a: &str, b: &str, c: &str) -> (r: String)
    ensures
        r@ == a@ + b@ + c@,
{
    a.to_owned().concat(b).concat(c)
}

pub fn cat4(a: &str, b: &str, c: &str, d: &str) -> (r: String)
    ensures
        r@ == a@ + b@ + c@ + d@,
{
    a.to_owned().concat(b).concat(c).concat(d)
}

pub fn cat5(a: &str, b: &str, c: &str, d: &str, e: &str) -> (r: String)
    ensures
        r@ == a@ + b@ + c@ + d@ + e@,
{
    a.to_owned().concat(b).concat(c).concat(d).concat(e)
}

pub fn cat7(a: &str, b: &str, c: &str, d: &str, e: &str, f: &str, g: &str) -> (r: String)
    ensures
        r@ == a@ + b@ + c@ + d@ + e@ + f@ + g@,
{
    a.to_owned().concat(b).concat(c).concat(d).concat(e).concat(f).concat(g)
}

/// Lexicographic order by code point, which is the order of the encoded bytes.
pub open spec fn before(a: Seq<char>, b: Seq<char>) -> bool
    decreases a.len(),
{
    if b.len() == 0 {
        false
    } else if a.len() == 0 {
        true
    } else if a[0] != b[0] {
        a[0] < b[0]
    } else {
        before(a.drop_first(), b.drop_first())
    }
}

pub proof fn lemma_before_total(a: Seq<char>, b: Seq<char>)
    ensures
        before(a, b) || before(b, a) || a == b,
        !(before(a, b) && before(b, a)),
        a == b ==> !before(a, b),
    decreases a.len(),
{
    if a.len() > 0 && b.len() > 0 {
        if a[0] == b[0] {
            lemma_before_total(a.drop_first(), b.drop_first());
            if a.drop_first() == b.drop_first() {
                assert(a =~= seq![a[0]] + a.drop_first());
                assert(b =~= seq![b[0]] + b.drop_first());
            }
        }
    } else if a.len() == 0 && b.len() == 0 {
        assert(a =~= b);
    }
}

pub proof fn lemma_before_transitive(a: Seq<char>, b: Seq<char>, c: Seq<char>)
    requires
        before(a, b),
        before(b, c),
    ensures
        before(a, c),
    decreases a.len(),
{
    if a.len() > 0 && a[0] == b[0] && b[0] == c[0] {
        lemma_before_transitive(a.drop_first(), b.drop_first(), c.drop_first());
    }
}

/// Whether `a` sorts before `b`.
pub fn is_before(a: &str, b: &str) -> (r: bool)
    ensures
        r == before(a@, b@),
{
    let x = chars_of(a);
    let y = chars_of(b);
    let mut i: usize = 0;
    assert(a@.skip(0) =~= a@);
    assert(b@.skip(0) =~= b@);
    while i < x.len() && i < y.len() && x[i] == y[i]
        invariant
            x@ == a@,
            y@ == b@,
            i <= x@.len(),
            i <= y@.len(),
            before(a@, b@) == before(a@.skip(i as int), b@.skip(i as int)),
        decreases x@.len() - i,
    {
        assert(a@.skip(i as int).drop_first() =~= a@.skip(i + 1));
        assert(b@.skip(i as int).drop_first() =~= b@.skip(i + 1));
        i += 1;
    }
    if i == y.len() {
        false
    } else if i == x.len() {
        true
    } else {
        x[i] < y[i]
    }
}

/// Whether the texts stand in ascending order; equal neighbours are allowed.
pub open spec fn ascending(v: Seq<Seq<char>>) -> bool {
    forall|i: int, j: int| 0 <= i < j < v.len() ==> !before(v[j], v[i])
}

/// Puts `item` where it keeps an ascending list ascending, behind its equals.
pub fn insert_sorted(list: &mut Vec<String>, item: String)
    requires
        ascending(texts(old(list)@)),
    ensures
        ascending(texts(final(list)@)),
        texts(final(list)@).to_multiset() == texts(old(list)@).to_multiset().insert(item@),
        final(list)@.len() == old(list)@.len() + 1,
{
    let mut i: usize = list.len();
    while i > 0 && is_before(item.as_str(), list[i - 1].as_str())
        invariant
            list@ == old(list)@,
            i <= list@.len(),
            forall|k: int| i <= k < list@.len() ==> before(item@, texts(list@)[k]),
        decreases i,
    {
        i -= 1;
    }
    let ghost was = texts(list@);
    let ghost word = item@;
    list.insert(i, item);
    proof {
        let now = texts(list@);
        assert(now =~= was.insert(i as int, word));
        now.to_multiset_ensures();
        assert(now.remove(i as int) =~= was);
        assert(now.contains(now[i as int]));
        assert(now.to_multiset() =~= was.to_multiset().insert(word));
        assert forall|a: int, b: int| 0 <= a < b < now.len() implies !before(now[b], now[a]) by {
            lemma_before_total(now[a], now[b]);
            if b == i {
                // Everything before the gap is not after the new item.
                assert(i > 0);
                assert(!before(word, was[i - 1]));
                if a < i - 1 {
                    assert(!before(was[i - 1], was[a]));
                    lemma_before_total(word, was[a]);
                    lemma_before_total(word, was[i - 1]);
                    lemma_before_total(was[a], was[i - 1]);
                    if before(word, was[a]) {
                        if was[a] != was[i - 1] {
                            lemma_before_transitive(word, was[a], was[i - 1]);
                        }
                    }
                }
            }
        }
    }
}

/// The same strings in ascending order.
pub fn sort(list: &Vec<String>) -> (r: Vec<String>)
    ensures
        ascending(texts(r@)),
        texts(r@).to_multiset() == texts(list@).to_multiset(),
        r@.len() == list@.len(),
{
    let mut out: Vec<String> = Vec::new();
    let mut i: usize = 0;
    assert(texts(out@) =~= texts(list@).take(0));
    while i < list.len()
        invariant
            i <= list@.len(),
            ascending(texts(out@)),
            texts(out@).to_multiset() == texts(list@).take(i as int).to_multiset(),
            out@.len() == i,
        decreases list@.len() - i,
    {
        insert_sorted(&mut out, list[i].clone());
        proof {
            let t = texts(list@);
            assert(t.take(i + 1) =~= t.take(i as int).push(t[i as int]));
            t.take(i as int).to_multiset_ensures();
        }
        i += 1;
    }
    assert(texts(list@).take(i as int) =~= texts(list@));
    out
}

/// Whether one of the strings is `item`.
pub fn holds(list: &Vec<String>, item: &str) -> (r: bool)
    ensures
        r == texts(list@).contains(item@),
{
    let mut i: usize = 0;
    while i < list.len()
        invariant
            i <= list@.len(),
            forall|k: int| 0 <= k < i ==> texts(list@)[k] != item@,
        decreases list@.len() - i,
    {
        if equal(list[i].as_str(), item) {
            assert(texts(list@)[i as int] == item@);
            return true;
        }
        i += 1;
    }
    false
}

/// A list with the same texts.
pub fn copy_all(list: &Vec<String>) -> (r: Vec<String>)
    ensures
        texts(r@) == texts(list@),
{
    let mut out: Vec<String> = Vec::new();
    append_all(&mut out, list);
    assert(texts(out@) =~= texts(list@));
    out
}

/// Puts copies of all of `more` behind `list`.
pub fn append_all(list: &mut Vec<String>, more: &Vec<String>)
    ensures
        texts(final(list)@) == texts(old(list)@) + texts(more@),
{
    let mut i: usize = 0;
    assert(texts(list@) =~= texts(old(list)@) + texts(more@).take(0));
    while i < more.len()
        invariant
            i <= more@.len(),
            texts(list@) == texts(old(list)@) + texts(more@).take(i as int),
        decreases more@.len() - i,
    {
        let item = more[i].clone();
        proof {
            lemma_texts_push(list@, item);
            assert(texts(more@).take(i + 1) =~= texts(more@).take(i as int).push(item@));
        }
        list.push(item);
        assert(texts(list@) =~= texts(old(list)@) + texts(more@).take(i + 1));
        i += 1;
    }
    assert(texts(more@).take(i as int) =~= texts(more@));
}

/// Puts a copy of `item` behind `list`.
pub fn push_text(list: &mut Vec<String>, item: &str)
    ensures
        texts(final(list)@) == texts(old(list)@).push(item@),
{
    let s = item.to_owned();
    proof {
        lemma_texts_push(list@, s);
    }
    list.push(s);
}

/// What an optional value holds, by view.
pub open spec fn seen<T: View>(o: Option<T>) -> Option<T::V> {
    match o {
        Some(x) => Some(x@),
        None => None,
    }
}

/// What the values of a list hold, by view.
pub open spec fn seen_all<T: View>(s: Seq<T>) -> Seq<T::V> {
    s.map_values(|x: T| x@)
}

pub proof fn lemma_seen_all_push<T: View>(s: Seq<T>, x: T)
    ensures
        seen_all(s.push(x)) == seen_all(s).push(x@),
{
    assert(seen_all(s.push(x)) =~= seen_all(s).push(x@));
}

/// The text of an optional string, by reference.
pub open spec fn str_option(o: Option<&str>) -> Option<Seq<char>> {
    match o {
        Some(s) => Some(s@),
        None => None,
    }
}

/// A copy of an optional string.
pub fn copy_option(o: &Option<String>) -> (r: Option<String>)
    ensures
        text_option(r) == text_option(*o),
{
    match o {
        Some(s) => Some(s.clone()),
        None => None,
    }
}

/// The first `n` characters of `s`, or all where it has fewer.
pub open spec fn first_chars(s: Seq<char>, n: int) -> Seq<char> {
    if s.len() <= n {
        s
    } else {
        s.take(n)
    }
}

pub fn take_chars(s: &str, n: usize) -> (r: String)
    ensures
        r@ == first_chars(s@, n as int),
{
    let v = chars_of(s);
    if v.len() <= n {
        s.to_owned()
    } else {
        string_of(&v, 0, n)
    }
}

/// What stands before and after the first `c` of `s`.
pub open spec fn cut_at(s: Seq<char>, c: char) -> Option<(Seq<char>, Seq<char>)> {
    let i = char_at(s, c, 0);
    if i < s.len() {
        Some((s.take(i), s.skip(i + 1)))
    } else {
        None
    }
}

/// Splits `s` at the first `c`.
pub fn split_once(s: &str, c: char) -> (r: Option<(String, String)>)
    ensures
        match r {
            Some(p) => cut_at(s@, c) == Some((p.0@, p.1@)),
            None => cut_at(s@, c) is None,
        },
{
    let v = chars_of(s);
    let mut i: usize = 0;
    while i < v.len() && v[i] != c
        invariant
            v@ == s@,
            i <= v@.len(),
            char_at(s@, c, 0) == char_at(s@, c, i as int),
        decreases v@.len() - i,
    {
        i += 1;
    }
    if i < v.len() {
        let head = string_of(&v, 0, i);
        let tail = string_of(&v, i + 1, v.len());
        assert(head@ =~= s@.take(i as int));
        assert(tail@ =~= s@.skip(i + 1));
        Some((head, tail))
    } else {
        None
    }
}

/// How `std` writes a text as a string literal, with its quotes and escapes.
pub uninterp spec fn debug_literal(text: Seq<char>) -> Seq<char>;

/// The `Debug` form of `str`: `format!("{text:?}")` is a function of the text alone.
#[verifier::external_body]
pub(crate) fn debug_text(text: &str) -> (r: String)
    ensures
        r@ == debug_literal(text@),
{
    format!("{text:?}")
}

} // verus!
