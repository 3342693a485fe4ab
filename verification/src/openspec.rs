//! The active OpenSpec changes of a repository, as far as a workflow reads them.
use crate::agenda::only_digits;
use crate::failure::{fail, fail_with, failed, outcome, Failure};
use crate::json::{
    as_bool, as_items, as_text, bool_in, collect_texts, encode_json, encoded_json, items_in, member,
    parse_json, parsed_json, text_in, texts_under, Json,
};
use crate::numeral::all_digits;
use crate::table::{law_put, named, put, put_entry, well_ordered};
use crate::text::{
    cat2, cat3, chars_of, cut_at, equal, holds, join, joined, push_text, split_once, text_option,
    texts,
};
use vstd::prelude::*;
use vstd::string::*;

verus! {

/// The active changes: their names in ascending order, each with its details as a
/// JSON document.
#[derive(Debug, Clone, PartialEq, Eq)]
pub struct ChangeSnapshot {
    pub changes: Vec<(String, String)>,
}

impl View for ChangeSnapshot {
    type V = Seq<(Seq<char>, Seq<char>)>;

    open spec fn view(&self) -> Seq<(Seq<char>, Seq<char>)> {
        crate::process::pairs(self.changes@)
    }
}

/// The names of the changes of a snapshot.
pub open spec fn change_names(s: Seq<(Seq<char>, Seq<char>)>) -> Seq<Seq<char>> {
    s.map_values(|p: (Seq<char>, Seq<char>)| p.0)
}

impl ChangeSnapshot {
    /// A snapshot without changes.
    pub fn empty() -> (r: ChangeSnapshot)
        ensures
            r@ == Seq::<(Seq<char>, Seq<char>)>::empty(),
    {
        let r = ChangeSnapshot { changes: Vec::new() };
        assert(r@ =~= Seq::empty());
        r
    }

    pub fn copy(&self) -> (r: ChangeSnapshot)
        ensures
            r@ == self@,
    {
        let mut out: Vec<(String, String)> = Vec::new();
        let mut i: usize = 0;
        while i < self.changes.len()
            invariant
                i <= self.changes@.len(),
                out@.len() == i,
                forall|k: int|
                    0 <= k < i ==> (#[trigger] out@[k]).0@ == self.changes@[k].0@ && out@[k].1@
                        == self.changes@[k].1@,
            decreases self.changes@.len() - i,
        {
            out.push((self.changes[i].0.clone(), self.changes[i].1.clone()));
            i += 1;
        }
        let r = ChangeSnapshot { changes: out };
        assert(r@ =~= self@);
        r
    }

    /// Whether a change of this name is active.
    pub fn contains(&self, change: &str) -> (r: bool)
        ensures
            r == change_names(self@).contains(change@),
    {
        let mut i: usize = 0;
        while i < self.changes.len()
            invariant
                i <= self.changes@.len(),
                forall|k: int| 0 <= k < i ==> change_names(self@)[k] != change@,
            decreases self.changes@.len() - i,
        {
            if equal(self.changes[i].0.as_str(), change) {
                assert(change_names(self@)[i as int] == change@);
                return true;
            }
            i += 1;
        }
        false
    }

    /// Whether two snapshots hold the same changes with the same details.
    pub fn same(&self, other: &ChangeSnapshot) -> (r: bool)
        ensures
            r == (self@ == other@),
    {
        if self.changes.len() != other.changes.len() {
            assert(self@.len() != other@.len());
            return false;
        }
        let mut i: usize = 0;
        while i < self.changes.len()
            invariant
                i <= self.changes@.len(),
                self.changes@.len() == other.changes@.len(),
                forall|k: int| 0 <= k < i ==> self@[k] == other@[k],
            decreases self.changes@.len() - i,
        {
            if !equal(self.changes[i].0.as_str(), other.changes[i].0.as_str()) || !equal(
                self.changes[i].1.as_str(),
                other.changes[i].1.as_str(),
            ) {
                assert(self@[i as int] != other@[i as int]);
                return false;
            }
            i += 1;
        }
        assert(self@ =~= other@);
        true
    }

    /// The names of the active changes.
    pub fn names(&self) -> (r: Vec<String>)
        ensures
            texts(r@) == change_names(self@),
    {
        let mut out: Vec<String> = Vec::new();
        let mut i: usize = 0;
        assert(texts(out@) =~= change_names(self@).take(0));
        while i < self.changes.len()
            invariant
                i <= self.changes@.len(),
                texts(out@) == change_names(self@).take(i as int),
            decreases self.changes@.len() - i,
        {
            push_text(&mut out, self.changes[i].0.as_str());
            i += 1;
            assert(texts(out@) =~= change_names(self@).take(i as int));
        }
        assert(change_names(self@).take(i as int) =~= change_names(self@));
        out
    }
}

/// How far the planning of a change has come.
#[derive(Debug, Clone, PartialEq, Eq)]
pub struct PlanningStatus {
    pub is_complete: bool,
    pub next_steps: Vec<String>,
}

pub const INVALID_STATUS: &'static str = "OpenSpec returned an invalid planning status";

/// How far planning has come, as a status document says: it is complete where the
/// document says so, and what is left are the texts among its next steps.
pub fn planning_status_of(document: &Json) -> (r: PlanningStatus)
    ensures
        r.is_complete == (bool_in(member(*document, "isPlanningComplete"@)) == Some(true)),
        texts(r.next_steps@) == match items_in(member(*document, "nextSteps"@)) {
            Some(steps) => texts_under(steps, None),
            None => Seq::empty(),
        },
{
    let is_complete = match as_bool(document.get("isPlanningComplete")) {
        Some(complete) => complete,
        None => false,
    };
    let next_steps = match as_items(document.get("nextSteps")) {
        Some(steps) => collect_texts(steps, None),
        None => {
            let none: Vec<String> = Vec::new();
            assert(texts(none@) =~= Seq::empty());
            none
        },
    };
    PlanningStatus { is_complete, next_steps }
}

/// Reads how far the planning of a change has come from what OpenSpec printed.
pub fn read_planning_status(printed: &str) -> (r: Result<PlanningStatus, Failure>)
    ensures
        match parsed_json(printed@) {
            Some(document) => r matches Ok(status) && status.is_complete == (bool_in(
                member(document, "isPlanningComplete"@),
            ) == Some(true)) && texts(status.next_steps@) == (match items_in(
                member(document, "nextSteps"@),
            ) {
                Some(steps) => texts_under(steps, None),
                None => Seq::empty(),
            }),
            None => failed(r, INVALID_STATUS@),
        },
{
    match parse_json(printed) {
        Some(document) => Ok(planning_status_of(&document)),
        None => fail_with(INVALID_STATUS),
    }
}

pub const INVALID_LIST: &'static str = "OpenSpec returned an invalid change list";

pub const NAMELESS_CHANGE: &'static str = "OpenSpec listed a change without a name";

/// The changes that a list gives, each by its name with all that is said of it; nothing
/// where one has no name. Of two with one name the later stands.
pub open spec fn listed(entries: Seq<Json>) -> Option<Seq<(Seq<char>, Seq<char>)>>
    decreases entries.len(),
{
    if entries.len() == 0 {
        Some(Seq::empty())
    } else {
        match (listed(entries.drop_last()), text_in(member(entries.last(), "name"@))) {
            (Some(table), Some(name)) => Some(put(table, name, encoded_json(entries.last()@))),
            _ => None,
        }
    }
}

/// The active changes, as a list document gives them. One without a list has none.
pub open spec fn changes_in(document: Json) -> Result<Seq<(Seq<char>, Seq<char>)>, Seq<char>> {
    match items_in(member(document, "changes"@)) {
        None => Ok(Seq::empty()),
        Some(entries) => match listed(entries) {
            Some(table) => Ok(table),
            None => Err(NAMELESS_CHANGE@),
        },
    }
}

proof fn lemma_unlisted(entries: Seq<Json>, n: int)
    requires
        0 <= n <= entries.len(),
        listed(entries.take(n)) is None,
    ensures
        listed(entries) is None,
    decreases entries.len() - n,
{
    if n < entries.len() {
        assert(entries.take(n + 1).drop_last() =~= entries.take(n));
        lemma_unlisted(entries, n + 1);
    } else {
        assert(entries.take(n) =~= entries);
    }
}

pub fn changes_of(document: &Json) -> (r: Result<ChangeSnapshot, Failure>)
    ensures
        match changes_in(*document) {
            Ok(table) => r matches Ok(snapshot) && snapshot@ == table,
            Err(message) => failed(r, message),
        },
{
    let mut changes: Vec<(String, String)> = Vec::new();
    assert(named(changes@) =~= Seq::empty());
    if let Some(entries) = as_items(document.get("changes")) {
        let mut i: usize = 0;
        assert(entries@.take(0) =~= Seq::empty());
        while i < entries.len()
            invariant
                i <= entries@.len(),
                items_in(member(*document, "changes"@)) == Some(entries@),
                listed(entries@.take(i as int)) == Some(named(changes@)),
            decreases entries@.len() - i,
        {
            proof {
                let upto = entries@.take(i + 1);
                assert(upto.drop_last() =~= entries@.take(i as int));
                assert(upto.last() == entries@[i as int]);
            }
            match as_text(entries[i].get("name")) {
                Some(name) => {
                    let details = encode_json(&entries[i]);
                    put_entry(&mut changes, name.to_owned(), details);
                },
                None => {
                    proof {
                        lemma_unlisted(entries@, i + 1);
                    }
                    return fail_with(NAMELESS_CHANGE);
                },
            }
            i += 1;
        }
        assert(entries@.take(i as int) =~= entries@);
    }
    let snapshot = ChangeSnapshot { changes };
    assert(snapshot@ =~= named(changes@));
    Ok(snapshot)
}

/// Reads the active changes from what OpenSpec printed.
pub fn read_changes(printed: &str) -> (r: Result<ChangeSnapshot, Failure>)
    ensures
        match parsed_json(printed@) {
            Some(document) => match changes_in(document) {
                Ok(table) => r matches Ok(snapshot) && snapshot@ == table,
                Err(message) => failed(r, message),
            },
            None => failed(r, INVALID_LIST@),
        },
{
    match parse_json(printed) {
        Some(document) => changes_of(&document),
        None => fail_with(INVALID_LIST),
    }
}

/// Changes are read in ascending order of their names, each name once.
pub proof fn law_listed_changes_are_ordered(entries: Seq<Json>)
    ensures
        listed(entries) matches Some(table) ==> well_ordered(table),
    decreases entries.len(),
{
    if entries.len() > 0 {
        law_listed_changes_are_ordered(entries.drop_last());
        if let Some(table) = listed(entries.drop_last()) {
            if let Some(name) = text_in(member(entries.last(), "name"@)) {
                law_put(table, name, encoded_json(entries.last()@), name);
            }
        }
    }
}

/// Whether a change is no longer active, which is the evidence that it was archived.
pub fn archive_is_absent(changes: &ChangeSnapshot, change: &str) -> (r: bool)
    ensures
        r == !change_names(changes@).contains(change@),
{
    !changes.contains(change)
}

/// The names of the first `n` changes that are new or have other details than before.
pub open spec fn touched(
    before: Seq<(Seq<char>, Seq<char>)>,
    after: Seq<(Seq<char>, Seq<char>)>,
    n: int,
) -> Seq<Seq<char>>
    decreases n,
{
    if n <= 0 || n > after.len() {
        Seq::empty()
    } else if before.contains(after[n - 1]) {
        touched(before, after, n - 1)
    } else {
        touched(before, after, n - 1).push(after[n - 1].0)
    }
}

/// The names of the first `n` changes that were not active before.
pub open spec fn created(
    before: Seq<(Seq<char>, Seq<char>)>,
    after: Seq<(Seq<char>, Seq<char>)>,
    n: int,
) -> Seq<Seq<char>>
    decreases n,
{
    if n <= 0 || n > after.len() {
        Seq::empty()
    } else if change_names(before).contains(after[n - 1].0) {
        created(before, after, n - 1)
    } else {
        created(before, after, n - 1).push(after[n - 1].0)
    }
}

/// Whether a snapshot holds a change with exactly these details.
fn has_entry(snapshot: &ChangeSnapshot, name: &str, details: &str) -> (r: bool)
    ensures
        r == snapshot@.contains((name@, details@)),
{
    let mut i: usize = 0;
    while i < snapshot.changes.len()
        invariant
            i <= snapshot.changes@.len(),
            forall|k: int| 0 <= k < i ==> #[trigger] snapshot@[k] != (name@, details@),
        decreases snapshot.changes@.len() - i,
    {
        if equal(snapshot.changes[i].0.as_str(), name) && equal(
            snapshot.changes[i].1.as_str(),
            details,
        ) {
            assert(snapshot@[i as int] == (name@, details@));
            return true;
        }
        i += 1;
    }
    false
}

fn touched_names(before: &ChangeSnapshot, after: &ChangeSnapshot) -> (r: Vec<String>)
    ensures
        texts(r@) == touched(before@, after@, after@.len() as int),
{
    let mut out: Vec<String> = Vec::new();
    let mut i: usize = 0;
    assert(texts(out@) =~= Seq::empty());
    while i < after.changes.len()
        invariant
            i <= after.changes@.len(),
            after.changes@.len() == after@.len(),
            texts(out@) == touched(before@, after@, i as int),
        decreases after.changes@.len() - i,
    {
        let known = has_entry(
            before,
            after.changes[i].0.as_str(),
            after.changes[i].1.as_str(),
        );
        assert(after@[i as int] == (after.changes@[i as int].0@, after.changes@[i as int].1@));
        if !known {
            push_text(&mut out, after.changes[i].0.as_str());
        }
        i += 1;
    }
    out
}

fn created_names(before: &ChangeSnapshot, after: &ChangeSnapshot) -> (r: Vec<String>)
    ensures
        texts(r@) == created(before@, after@, after@.len() as int),
{
    let mut out: Vec<String> = Vec::new();
    let mut i: usize = 0;
    assert(texts(out@) =~= Seq::empty());
    while i < after.changes.len()
        invariant
            i <= after.changes@.len(),
            after.changes@.len() == after@.len(),
            texts(out@) == created(before@, after@, i as int),
        decreases after.changes@.len() - i,
    {
        let known = before.contains(after.changes[i].0.as_str());
        assert(after@[i as int].0 == after.changes@[i as int].0@);
        if !known {
            push_text(&mut out, after.changes[i].0.as_str());
        }
        i += 1;
    }
    out
}

/// The change that was made or altered, where there is exactly one.
pub fn identify_change(before: &ChangeSnapshot, after: &ChangeSnapshot) -> (r: Result<
    String,
    Failure,
>)
    ensures
        r matches Ok(name) ==> change_names(after@).contains(name@),
        before@ == after@ ==> r is Err,
        ({
            let names = touched(before@, after@, after@.len() as int);
            outcome(r) == if names.len() == 1 {
                Ok(names[0])
            } else if names.len() == 0 {
                Err("no active OpenSpec change was created or modified"@)
            } else {
                Err(
                    "more than one active OpenSpec change was created or modified: "@ + joined(
                        names,
                        ", "@,
                    ),
                )
            }
        }),
{
    let names = touched_names(before, after);
    if names.len() == 1 {
        assert(texts(names@)[0] == names@[0]@);
        proof {
            let name = names@[0]@;
            assert(texts(names@)[0] == name);
            assert(texts(names@).contains(name));
            lemma_touched_is_named(before@, after@, name);
            if before@ == after@ {
                law_nothing_is_touched_where_nothing_changed(after@, after@.len() as int);
            }
        }
        return Ok(names[0].clone());
    }
    if names.len() == 0 {
        return fail_with("no active OpenSpec change was created or modified");
    }
    let list = join(&names, ", ");
    fail(
        cat2(
            "more than one active OpenSpec change was created or modified: ",
            list.as_str(),
        ),
    )
}

/// The assigned change, where it was made or altered.
pub fn identify_assigned_change(
    before: &ChangeSnapshot,
    after: &ChangeSnapshot,
    assigned: &str,
) -> (r: Result<String, Failure>)
    ensures
        r matches Ok(name) ==> name@ == assigned@ && change_names(after@).contains(assigned@),
        before@ == after@ ==> r is Err,
        outcome(r) == if touched(before@, after@, after@.len() as int).contains(assigned@) {
            Ok(assigned@)
        } else {
            Err(
                "the assigned OpenSpec change `"@ + assigned@ + "` was not created or modified"@,
            )
        },
{
    let names = touched_names(before, after);
    proof {
        if texts(names@).contains(assigned@) {
            lemma_touched_is_named(before@, after@, assigned@);
        }
        if before@ == after@ {
            law_nothing_is_touched_where_nothing_changed(after@, after@.len() as int);
        }
    }
    if holds(&names, assigned) {
        Ok(assigned.to_owned())
    } else {
        fail(
            cat3("the assigned OpenSpec change `", assigned, "` was not created or modified"),
        )
    }
}

/// The one change that was made, where it is the assigned one without its number: a number
/// of digits and a hyphen.
pub open spec fn unnumbered(
    before: Seq<(Seq<char>, Seq<char>)>,
    after: Seq<(Seq<char>, Seq<char>)>,
    assigned: Seq<char>,
) -> Option<Seq<char>> {
    let names = created(before, after, after.len() as int);
    match cut_at(assigned, '-') {
        Some((number, rest)) => if number.len() > 0 && all_digits(number) && !change_names(
            after,
        ).contains(assigned) && names.len() == 1 && names[0] == rest {
            Some(rest)
        } else {
            None
        },
        None => None,
    }
}

pub fn numeric_prefix_reconciliation_candidate(
    before: &ChangeSnapshot,
    after: &ChangeSnapshot,
    assigned: &str,
) -> (r: Option<String>)
    ensures
        text_option(r) == unnumbered(before@, after@, assigned@),
{
    let (number, rest) = match split_once(assigned, '-') {
        Some(parts) => parts,
        None => {
            return None;
        },
    };
    let names = created_names(before, after);
    let digits = only_digits(number.as_str());
    if chars_of(number.as_str()).len() > 0 && digits && !after.contains(assigned) && names.len()
        == 1 {
        assert(texts(names@)[0] == names@[0]@);
        if equal(names[0].as_str(), rest.as_str()) {
            return Some(rest);
        }
    }
    None
}

/// The active change to go on with: the one that is named, or the only one.
pub fn select_existing_change(active: &ChangeSnapshot, named: Option<&str>) -> (r: Result<
    String,
    Failure,
>)
    ensures
        r matches Ok(name) ==> change_names(active@).contains(name@),
        named matches Some(n) ==> (r is Ok <==> change_names(active@).contains(n@)) && (
        r matches Ok(name) ==> name@ == n@),
        named is None ==> (r is Ok <==> active@.len() == 1),
        outcome(r) == match named {
            Some(change) => if change_names(active@).contains(change@) {
                Ok(change@)
            } else {
                Err("OpenSpec change `"@ + change@ + "` is not active"@)
            },
            None => if active@.len() == 1 {
                Ok(active@[0].0)
            } else if active@.len() == 0 {
                Err("no OpenSpec change is active"@)
            } else {
                Err(
                    "more than one OpenSpec change is active; select one with --change NAME: "@
                        + joined(change_names(active@), ", "@),
                )
            },
        },
{
    match named {
        Some(change) => if active.contains(change) {
            Ok(change.to_owned())
        } else {
            fail(cat3("OpenSpec change `", change, "` is not active"))
        },
        None => {
            assert(active@.len() == active.changes@.len());
            if active.changes.len() == 1 {
                assert(active@[0].0 == active.changes@[0].0@);
                assert(change_names(active@)[0] == active.changes@[0].0@);
                Ok(active.changes[0].0.clone())
            } else if active.changes.len() == 0 {
                fail_with("no OpenSpec change is active")
            } else {
                let names = active.names();
                let list = join(&names, ", ");
                fail(
                    cat2(
                        "more than one OpenSpec change is active; select one with --change NAME: ",
                        list.as_str(),
                    ),
                )
            }
        },
    }
}

/// What was made was also touched.
pub proof fn law_created_changes_are_touched(
    before: Seq<(Seq<char>, Seq<char>)>,
    after: Seq<(Seq<char>, Seq<char>)>,
    n: int,
    name: Seq<char>,
)
    requires
        created(before, after, n).contains(name),
    ensures
        touched(before, after, n).contains(name),
    decreases n,
{
    let made = created(before, after, n);
    let seen = touched(before, after, n);
    let at = choose|i: int| 0 <= i < made.len() && made[i] == name;
    let entry = after[n - 1];
    let upper = created(before, after, n - 1);
    if !change_names(before).contains(entry.0) && at == made.len() - 1 {
        if before.contains(entry) {
            let k = choose|k: int| 0 <= k < before.len() && before[k] == entry;
            assert(change_names(before)[k] == entry.0);
        }
        assert(seen.last() == name);
    } else {
        assert(upper[at] == name);
        law_created_changes_are_touched(before, after, n - 1, name);
        let more = touched(before, after, n - 1);
        let j = choose|j: int| 0 <= j < more.len() && more[j] == name;
        assert(seen[j] == name);
    }
}

/// Nothing was touched where nothing changed.
pub proof fn law_nothing_is_touched_where_nothing_changed(
    changes: Seq<(Seq<char>, Seq<char>)>,
    n: int,
)
    ensures
        touched(changes, changes, n) == Seq::<Seq<char>>::empty(),
    decreases n,
{
    if 0 < n <= changes.len() {
        assert(changes.contains(changes[n - 1]));
        law_nothing_is_touched_where_nothing_changed(changes, n - 1);
    }
}

// What tells changes apart

/// The changes that were touched are exactly those that stand in the second snapshot with
/// details that they did not have in the first, and those that were made exactly those whose
/// names were not there.
pub proof fn law_touched_changes_are_new_or_altered(
    before: Seq<(Seq<char>, Seq<char>)>,
    after: Seq<(Seq<char>, Seq<char>)>,
    n: int,
    name: Seq<char>,
)
    requires
        0 <= n <= after.len(),
    ensures
        touched(before, after, n).contains(name) <==> exists|i: int|
            0 <= i < n && (#[trigger] after[i]).0 == name && !before.contains(after[i]),
        created(before, after, n).contains(name) <==> exists|i: int|
            0 <= i < n && (#[trigger] after[i]).0 == name && forall|j: int|
                0 <= j < before.len() ==> (#[trigger] before[j]).0 != name,
    decreases n,
{
    if n > 0 {
        law_touched_changes_are_new_or_altered(before, after, n - 1, name);
        let entry = after[n - 1];
        let t = touched(before, after, n - 1);
        let c = created(before, after, n - 1);
        if !before.contains(entry) {
            lemma_push_holds(t, entry.0, name);
        }
        assert(change_names(before).contains(entry.0) <==> exists|j: int|
            0 <= j < before.len() && (#[trigger] before[j]).0 == entry.0) by {
            if change_names(before).contains(entry.0) {
                let j = choose|j: int|
                    0 <= j < change_names(before).len() && change_names(before)[j] == entry.0;
                assert(before[j].0 == entry.0);
            }
            if exists|j: int| 0 <= j < before.len() && (#[trigger] before[j]).0 == entry.0 {
                let j = choose|j: int| 0 <= j < before.len() && (#[trigger] before[j]).0 == entry.0;
                assert(change_names(before)[j] == entry.0);
            }
        }
        if !change_names(before).contains(entry.0) {
            lemma_push_holds(c, entry.0, name);
        }
    }
}

proof fn lemma_push_holds(s: Seq<Seq<char>>, x: Seq<char>, name: Seq<char>)
    ensures
        s.push(x).contains(name) <==> s.contains(name) || x == name,
{
    if s.contains(name) {
        let k = choose|k: int| 0 <= k < s.len() && s[k] == name;
        assert(s.push(x)[k] == name);
    }
    if s.push(x).contains(name) {
        let k = choose|k: int| 0 <= k < s.push(x).len() && s.push(x)[k] == name;
        if k < s.len() {
            assert(s[k] == name);
        }
    }
    assert(s.push(x)[s.len() as int] == x);
}

proof fn lemma_touched_is_named(
    before: Seq<(Seq<char>, Seq<char>)>,
    after: Seq<(Seq<char>, Seq<char>)>,
    name: Seq<char>,
)
    requires
        touched(before, after, after.len() as int).contains(name),
    ensures
        change_names(after).contains(name),
{
    law_touched_changes_are_new_or_altered(before, after, after.len() as int, name);
    let i = choose|i: int|
        0 <= i < after.len() && (#[trigger] after[i]).0 == name && !before.contains(after[i]);
    assert(change_names(after)[i] == name);
}

/// A change is taken for the assigned one only where it is the one change that was made,
/// nothing has the assigned name, and the two names differ by digits and a hyphen in front.
pub proof fn law_only_a_lost_number_is_reconciled(
    before: Seq<(Seq<char>, Seq<char>)>,
    after: Seq<(Seq<char>, Seq<char>)>,
    number: Seq<char>,
    rest: Seq<char>,
)
    requires
        number.len() > 0,
        forall|i: int| 0 <= i < number.len() ==> '0' <= #[trigger] number[i] && number[i] <= '9',
    ensures
        ({
            let assigned = number + seq!['-'] + rest;
            let names = created(before, after, after.len() as int);
            &&& unnumbered(before, after, assigned) matches Some(found) ==> found == rest
            &&& unnumbered(before, after, assigned) is Some <==> names == seq![rest]
                && !change_names(after).contains(assigned)
        }),
{
    let assigned = number + seq!['-'] + rest;
    assert forall|i: int| 0 <= i < number.len() implies #[trigger] number[i] != '-' by {}
    crate::text_laws::law_pieces_end_at_separators(number, '-', rest);
    let names = created(before, after, after.len() as int);
    if names.len() == 1 {
        assert(names =~= seq![names[0]]);
    }
}

/// Without a number there is nothing to reconcile.
pub proof fn law_unnumbered_names_are_not_reconciled(
    before: Seq<(Seq<char>, Seq<char>)>,
    after: Seq<(Seq<char>, Seq<char>)>,
    head: Seq<char>,
    rest: Seq<char>,
)
    requires
        forall|i: int| 0 <= i < head.len() ==> #[trigger] head[i] != '-',
        head.len() == 0 || !('0' <= head[0] && head[0] <= '9'),
    ensures
        unnumbered(before, after, head + seq!['-'] + rest) is None,
        unnumbered(before, after, head) is None,
{
    crate::text_laws::law_pieces_end_at_separators(head, '-', rest);
}

/// Every change of a list is read under its name, with all that is said of it, and a change
/// without a name has the list refused. A document without a list has no changes.
pub proof fn law_every_change_is_read(entries: Seq<Json>, last: Json, other: Seq<char>)
    requires
        listed(entries) is Some,
    ensures
        ({
            let name = text_in(member(last, "name"@));
            let r = listed(entries.push(last));
            &&& r is Some <==> name is Some
            &&& r matches Some(table) ==> {
                &&& crate::table::lookup(table, name->0) == Some(encoded_json(last@))
                &&& other != name->0 ==> crate::table::lookup(table, other)
                    == crate::table::lookup(listed(entries)->0, other)
            }
        }),
        listed(Seq::empty()) == Some(Seq::<(Seq<char>, Seq<char>)>::empty()),
        items_in(member(last, "changes"@)) is None ==> changes_in(last) == Ok::<_, Seq<char>>(
            Seq::<(Seq<char>, Seq<char>)>::empty(),
        ),
        items_in(member(last, "changes"@)) matches Some(list) ==> (changes_in(last) is Ok <==> listed(
            list,
        ) is Some),
{
    assert(entries.push(last).drop_last() =~= entries);
    law_listed_changes_are_ordered(entries);
    if text_in(member(last, "name"@)) is Some {
        law_put(listed(entries)->0, text_in(member(last, "name"@))->0, encoded_json(last@), other);
    }
}

} // verus!
