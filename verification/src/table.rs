//! Tables by name: entries in ascending order of their names, no name twice.
use crate::text::{
    before, equal, is_before, lemma_before_total, lemma_before_transitive, push_text, texts,
};
use vstd::prelude::*;
use vstd::string::*;

verus! {

/// The entries of a table, by view.
pub open spec fn named<T: View>(v: Seq<(String, T)>) -> Seq<(Seq<char>, T::V)> {
    v.map_values(|p: (String, T)| (p.0@, p.1@))
}

/// The names of a table.
pub open spec fn names_of<V>(s: Seq<(Seq<char>, V)>) -> Seq<Seq<char>> {
    s.map_values(|p: (Seq<char>, V)| p.0)
}

/// Whether the names stand in ascending order, no name twice.
pub open spec fn well_ordered<V>(s: Seq<(Seq<char>, V)>) -> bool {
    forall|i: int, j: int| 0 <= i < j < s.len() ==> before((#[trigger] s[i]).0, (#[trigger] s[j]).0)
}

/// The table with `name` standing for `value`.
pub open spec fn put<V>(s: Seq<(Seq<char>, V)>, name: Seq<char>, value: V) -> Seq<(Seq<char>, V)>
    decreases s.len(),
{
    if s.len() == 0 || before(s.last().0, name) {
        s.push((name, value))
    } else if s.last().0 == name {
        s.drop_last().push((name, value))
    } else {
        put(s.drop_last(), name, value).push(s.last())
    }
}

/// What `name` stands for.
pub open spec fn lookup<V>(s: Seq<(Seq<char>, V)>, name: Seq<char>) -> Option<V>
    decreases s.len(),
{
    if s.len() == 0 {
        None
    } else if s.last().0 == name {
        Some(s.last().1)
    } else {
        lookup(s.drop_last(), name)
    }
}

/// Putting an entry into a table keeps it a table, and changes what its own name stands
/// for and nothing else.
pub proof fn law_put<V>(s: Seq<(Seq<char>, V)>, name: Seq<char>, value: V, other: Seq<char>)
    requires
        well_ordered(s),
    ensures
        well_ordered(put(s, name, value)),
        lookup(put(s, name, value), name) == Some(value),
        other != name ==> lookup(put(s, name, value), other) == lookup(s, other),
    decreases s.len(),
{
    lemma_put(s, name, value);
    lemma_lookup_put(s, name, value, other);
}

proof fn lemma_put<V>(s: Seq<(Seq<char>, V)>, name: Seq<char>, value: V)
    requires
        well_ordered(s),
    ensures
        well_ordered(put(s, name, value)),
        forall|i: int|
            0 <= i < put(s, name, value).len() ==> (#[trigger] put(s, name, value)[i]).0 == name
                || exists|k: int| 0 <= k < s.len() && s[k] == put(s, name, value)[i],
    decreases s.len(),
{
    let t = put(s, name, value);
    if s.len() == 0 {
    } else if before(s.last().0, name) {
        assert forall|i: int, j: int| 0 <= i < j < t.len() implies before(
            (#[trigger] t[i]).0,
            (#[trigger] t[j]).0,
        ) by {
            if j == s.len() && i < s.len() - 1 {
                assert(before(s[i].0, s[s.len() - 1].0));
                lemma_before_transitive(s[i].0, s.last().0, name);
            }
        }
        assert forall|i: int| 0 <= i < t.len() implies (#[trigger] t[i]).0 == name || exists|k: int|
            0 <= k < s.len() && s[k] == t[i] by {
            if i < s.len() {
                assert(s[i] == t[i]);
            }
        }
    } else if s.last().0 == name {
        assert forall|i: int| 0 <= i < t.len() implies (#[trigger] t[i]).0 == name || exists|k: int|
            0 <= k < s.len() && s[k] == t[i] by {
            if i < s.len() - 1 {
                assert(s[i] == t[i]);
            }
        }
    } else {
        lemma_before_total(s.last().0, name);
        let front = s.drop_last();
        let rest = put(front, name, value);
        lemma_put(front, name, value);
        assert forall|i: int, j: int| 0 <= i < j < t.len() implies before(
            (#[trigger] t[i]).0,
            (#[trigger] t[j]).0,
        ) by {
            if j == rest.len() {
                if rest[i].0 != name {
                    let k = choose|k: int| 0 <= k < front.len() && front[k] == rest[i];
                    assert(before(s[k].0, s[s.len() - 1].0));
                }
            }
        }
        assert forall|i: int| 0 <= i < t.len() implies (#[trigger] t[i]).0 == name || exists|k: int|
            0 <= k < s.len() && s[k] == t[i] by {
            if i < rest.len() {
                if rest[i].0 != name {
                    let k = choose|k: int| 0 <= k < front.len() && front[k] == rest[i];
                    assert(s[k] == t[i]);
                }
            } else {
                assert(s[s.len() - 1] == t[i]);
            }
        }
    }
}

proof fn lemma_absent<V>(s: Seq<(Seq<char>, V)>, name: Seq<char>)
    requires
        forall|i: int| 0 <= i < s.len() ==> (#[trigger] s[i]).0 != name,
    ensures
        lookup(s, name) is None,
    decreases s.len(),
{
    if s.len() > 0 {
        assert(s[s.len() - 1].0 != name);
        lemma_absent(s.drop_last(), name);
    }
}

proof fn lemma_lookup_put<V>(s: Seq<(Seq<char>, V)>, name: Seq<char>, value: V, other: Seq<char>)
    requires
        well_ordered(s),
    ensures
        lookup(put(s, name, value), name) == Some(value),
        other != name ==> lookup(put(s, name, value), other) == lookup(s, other),
    decreases s.len(),
{
    let t = put(s, name, value);
    if s.len() == 0 || before(s.last().0, name) {
        assert(t.drop_last() =~= s);
    } else if s.last().0 == name {
        assert(t.drop_last() =~= s.drop_last());
    } else {
        lemma_lookup_put(s.drop_last(), name, value, other);
        assert(t.drop_last() =~= put(s.drop_last(), name, value));
    }
}

/// Puts an entry into a table.
pub fn put_entry<T: View>(list: &mut Vec<(String, T)>, name: String, value: T)
    ensures
        named(final(list)@) == put(named(old(list)@), name@, value@),
{
    let mut i: usize = list.len();
    let ghost s = named(list@);
    while i > 0 && !is_before(list[i - 1].0.as_str(), name.as_str()) && !equal(
        list[i - 1].0.as_str(),
        name.as_str(),
    )
        invariant
            list@ == old(list)@,
            s == named(list@),
            i <= list@.len(),
            put(s, name@, value@) == put(s.take(i as int), name@, value@) + s.skip(i as int) || i
                == s.len(),
        decreases i,
    {
        proof {
            let front = s.take(i as int);
            assert(front.last() == s[i - 1]);
            assert(front.drop_last() =~= s.take(i - 1));
            assert(s.take(s.len() as int) =~= s);
            assert(put(s.take(i - 1), name@, value@).push(s[i - 1]) + s.skip(i as int) =~= put(
                s.take(i - 1),
                name@,
                value@,
            ) + s.skip(i - 1));
            if i == s.len() {
                assert(put(s, name@, value@) =~= put(s.take(i - 1), name@, value@) + s.skip(i - 1));
            }
        }
        i -= 1;
    }
    proof {
        assert(s.take(s.len() as int) =~= s);
        assert(s.skip(s.len() as int) =~= Seq::empty());
        assert(put(s, name@, value@) =~= put(s.take(i as int), name@, value@) + s.skip(i as int));
    }
    if i > 0 && equal(list[i - 1].0.as_str(), name.as_str()) {
        proof {
            let front = s.take(i as int);
            assert(front.last() == s[i - 1]);
            lemma_before_total(s[i - 1].0, name@);
        }
        let entry = (name, value);
        list.set(i - 1, entry);
        assert(named(list@) =~= s.take(i as int).drop_last().push((name@, value@)) + s.skip(
            i as int,
        ));
    } else {
        proof {
            if i > 0 {
                assert(s.take(i as int).last() == s[i - 1]);
            }
        }
        let entry = (name, value);
        list.insert(i, entry);
        assert(named(list@) =~= s.take(i as int).push((name@, value@)) + s.skip(i as int));
    }
}

/// Where `name` stands in a table, if it does.
pub fn find_entry<T: View>(list: &Vec<(String, T)>, name: &str) -> (r: Option<usize>)
    ensures
        match r {
            Some(i) => i < list@.len() && lookup(named(list@), name@) == Some(list@[i as int].1@)
                && list@[i as int].0@ == name@,
            None => lookup(named(list@), name@) is None,
        },
{
    let ghost s = named(list@);
    let mut i: usize = list.len();
    assert(s.take(i as int) =~= s);
    while i > 0
        invariant
            i <= list@.len(),
            s == named(list@),
            lookup(s, name@) == lookup(s.take(i as int), name@),
        decreases i,
    {
        proof {
            assert(s.take(i as int).last() == s[i - 1]);
            assert(s.take(i as int).drop_last() =~= s.take(i - 1));
        }
        if equal(list[i - 1].0.as_str(), name) {
            return Some(i - 1);
        }
        i -= 1;
    }
    None
}

/// The names of a table, in order.
pub fn entry_names<T: View>(list: &Vec<(String, T)>) -> (r: Vec<String>)
    ensures
        texts(r@) == names_of(named(list@)),
{
    let mut out: Vec<String> = Vec::new();
    let mut i: usize = 0;
    let ghost all = names_of(named(list@));
    assert(texts(out@) =~= all.take(0));
    while i < list.len()
        invariant
            i <= list@.len(),
            all == names_of(named(list@)),
            texts(out@) == all.take(i as int),
        decreases list@.len() - i,
    {
        push_text(&mut out, list[i].0.as_str());
        i += 1;
        assert(texts(out@) =~= all.take(i as int));
    }
    assert(all.take(i as int) =~= all);
    out
}

} // verus!
