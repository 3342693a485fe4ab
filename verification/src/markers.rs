//! Markers in a text: where they stand, and that nothing next to one is taken for another.
use crate::text::{find_chars, find_from, lemma_find_from, occurs_at};
use vstd::prelude::*;
use vstd::string::*;

verus! {

/// How often a text stands in another, one after the other.
pub enum Count {
    Never,
    /// Once, at a place.
    Once(int),
    Often,
}

/// How often `p` stands in `s`.
pub open spec fn count(s: Seq<char>, p: Seq<char>) -> Count {
    match find_from(s, p, 0) {
        None => Count::Never,
        Some(i) => match find_from(s, p, i + p.len()) {
            None => Count::Once(i),
            Some(_) => Count::Often,
        },
    }
}

/// Where a text stands in another, if it stands there once.
#[derive(Debug, Clone, Copy, PartialEq, Eq, Structural)]
pub enum Found {
    Never,
    Once(usize),
    Often,
}

pub open spec fn counted(f: Found) -> Count {
    match f {
        Found::Never => Count::Never,
        Found::Once(i) => Count::Once(i as int),
        Found::Often => Count::Often,
    }
}

/// Counts how often `p` stands in `s`.
pub fn count_chars(s: &Vec<char>, p: &Vec<char>) -> (r: Found)
    requires
        p@.len() > 0,
    ensures
        counted(r) == count(s@, p@),
        r matches Found::Once(i) ==> i + p@.len() <= s@.len(),
{
    match find_chars(s, p, 0) {
        None => Found::Never,
        Some(i) => {
            proof {
                lemma_find_from(s@, p@, 0);
            }
            let length: usize = s.len();
            assert(i + p@.len() <= length);
            match find_chars(s, p, i + p.len()) {
                None => Found::Once(i),
                Some(_) => Found::Often,
            }
        },
    }
}

/// Whether a text can serve as a marker: it opens with a bracket and closes with one, and
/// has none of them between.
pub open spec fn marker(p: Seq<char>) -> bool {
    &&& p.len() >= 2
    &&& p[0] == '<'
    &&& p.last() == '>'
    &&& forall|i: int| 0 < i < p.len() ==> #[trigger] p[i] != '<'
    &&& forall|i: int| 0 <= i < p.len() - 1 ==> #[trigger] p[i] != '>'
    &&& forall|i: int| 0 <= i < p.len() ==> #[trigger] p[i] != '\n'
}

/// Whether a text holds no `p`.
pub open spec fn free_of(s: Seq<char>, p: Seq<char>) -> bool {
    forall|i: int| !#[trigger] occurs_at(s, p, i)
}

/// Whether `p` stands in `s` at `at` and nowhere else.
pub open spec fn only_at(s: Seq<char>, p: Seq<char>, at: int) -> bool {
    occurs_at(s, p, at) && forall|i: int| #[trigger] occurs_at(s, p, i) ==> i == at
}

/// A marker that is counted once stands there and nowhere else.
pub proof fn lemma_once(s: Seq<char>, p: Seq<char>, at: int)
    requires
        marker(p),
        count(s, p) == Count::Once(at),
    ensures
        only_at(s, p, at),
{
    lemma_find_from(s, p, 0);
    lemma_find_from(s, p, at + p.len());
    assert forall|i: int| #[trigger] occurs_at(s, p, i) implies i == at by {
        if i > at && i < at + p.len() {
            let w = s.subrange(i, i + p.len());
            let v = s.subrange(at, at + p.len());
            assert(w[0] == s[i]);
            assert(v[i - at] == s[i]);
            assert(p[i - at] == '<');
        }
    }
}

/// A marker that stands in one place only is counted once.
pub proof fn lemma_counted_once(s: Seq<char>, p: Seq<char>, at: int)
    requires
        marker(p),
        only_at(s, p, at),
    ensures
        count(s, p) == Count::Once(at),
{
    lemma_find_from(s, p, 0);
    lemma_find_from(s, p, at + p.len());
    assert(occurs_at(s, p, at));
}

/// A text that holds no marker is counted so, and the other way round.
pub proof fn lemma_never(s: Seq<char>, p: Seq<char>)
    requires
        p.len() > 0,
    ensures
        count(s, p) is Never <==> free_of(s, p),
{
    lemma_find_from(s, p, 0);
    if count(s, p) is Never {
        assert forall|i: int| !#[trigger] occurs_at(s, p, i) by {
            if i >= 0 {
            }
        }
    }
}

/// In a text of three parts, the middle one of which opens and closes with brackets, a
/// marker stands in one of the parts.
pub proof fn lemma_three_parts(a: Seq<char>, f: Seq<char>, b: Seq<char>, p: Seq<char>, i: int)
    requires
        marker(p),
        f.len() > 0,
        f[0] == '<',
        f.last() == '>',
        occurs_at(a + f + b, p, i),
    ensures
        occurs_at(a, p, i) || occurs_at(f, p, i - a.len()) || occurs_at(b, p, i - a.len() - f.len()),
{
    let s = a + f + b;
    let w = s.subrange(i, i + p.len());
    if i + p.len() <= a.len() {
        assert(a.subrange(i, i + p.len()) =~= w);
    } else if i < a.len() {
        let k = a.len() - i;
        assert(w[k] == s[a.len() as int]);
        assert(p[k] == '<');
    } else if i + p.len() <= a.len() + f.len() {
        let j = i - a.len();
        assert(f.subrange(j, j + p.len()) =~= w);
    } else if i < a.len() + f.len() {
        let k = a.len() + f.len() - 1 - i;
        assert(w[k] == s[a.len() + f.len() - 1]);
        assert(p[k] == '>');
    } else {
        let j = i - a.len() - f.len();
        assert(b.subrange(j, j + p.len()) =~= w);
    }
}

/// A part of a text holds no marker that the text does not hold.
pub proof fn lemma_part_free(s: Seq<char>, p: Seq<char>, from: int, to: int, at: int)
    requires
        p.len() > 0,
        0 <= from <= to <= s.len(),
        forall|i: int| #[trigger] occurs_at(s, p, i) ==> i == at,
        at < from || at + p.len() > to,
    ensures
        free_of(s.subrange(from, to), p),
{
    let t = s.subrange(from, to);
    assert forall|i: int| !#[trigger] occurs_at(t, p, i) by {
        if occurs_at(t, p, i) {
            assert(s.subrange(from + i, from + i + p.len()) =~= t.subrange(i, i + p.len()));
            assert(occurs_at(s, p, from + i));
        }
    }
}

/// Where the middle of three parts alone holds a marker, the whole holds it there alone.
pub proof fn lemma_middle(a: Seq<char>, f: Seq<char>, b: Seq<char>, p: Seq<char>, at: int)
    requires
        marker(p),
        f.len() > 0,
        f[0] == '<',
        f.last() == '>',
        free_of(a, p),
        free_of(b, p),
        only_at(f, p, at),
    ensures
        only_at(a + f + b, p, a.len() + at),
{
    let s = a + f + b;
    assert(s.subrange(a.len() + at, a.len() + at + p.len()) =~= f.subrange(at, at + p.len()));
    assert forall|i: int| #[trigger] occurs_at(s, p, i) implies i == a.len() + at by {
        lemma_three_parts(a, f, b, p, i);
    }
}

/// Where none of three parts holds a marker, the whole does not either.
pub proof fn lemma_none(a: Seq<char>, f: Seq<char>, b: Seq<char>, p: Seq<char>)
    requires
        marker(p),
        f.len() > 0,
        f[0] == '<',
        f.last() == '>',
        free_of(a, p),
        free_of(b, p),
        free_of(f, p),
    ensures
        free_of(a + f + b, p),
{
    assert forall|i: int| !#[trigger] occurs_at(a + f + b, p, i) by {
        if occurs_at(a + f + b, p, i) {
            lemma_three_parts(a, f, b, p, i);
        }
    }
}

} // verus!
