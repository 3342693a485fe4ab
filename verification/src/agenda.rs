//! The ordered agenda: which slice of the work comes next.
use crate::failure::{fail, Failure};
use crate::numeral::{
    all_digits, decimal, decimal_value, padded_text, parse_unsigned, unsigned_value, zero_padded,
};
use crate::text::{
    after_prefix, before, before_suffix, cat2, cat3, chars_of, cut_at, digit, ends, ends_with,
    equal, find_chars, find_from, is_before, is_digit, is_lower, join, joined, lemma_before_total,
    lemma_before_transitive, lemma_find_from, lemma_texts_push, lines, lines_of, lower, occurs_at,
    split_once, starts, starts_with, string_of, strip_prefix, strip_suffix, texts,
};
use crate::text_laws::law_prefixes_and_suffixes_come_off;
use vstd::prelude::*;
use vstd::string::*;

verus! {

pub const SLICES_DIR: &'static str = "automation/slices";

/// The slice that ends every agenda.
pub const TERMINAL_PATH: &'static str = "automation/slices/9999-project-acceptance.md";

/// One slice of the agenda, assigned to a change.
#[derive(Debug, Clone, PartialEq, Eq)]
pub struct AgendaAssignment {
    pub path: String,
    pub change: String,
    pub title: String,
    pub content: String,
}

/// What an [`AgendaAssignment`] holds.
pub struct AssignmentView {
    pub path: Seq<char>,
    pub change: Seq<char>,
    pub title: Seq<char>,
    pub content: Seq<char>,
}

impl View for AgendaAssignment {
    type V = AssignmentView;

    open spec fn view(&self) -> AssignmentView {
        AssignmentView {
            path: self.path@,
            change: self.change@,
            title: self.title@,
            content: self.content@,
        }
    }
}

impl AgendaAssignment {
    /// An assignment that holds the same.
    pub fn copy(&self) -> (r: AgendaAssignment)
        ensures
            r@ == self@,
    {
        AgendaAssignment {
            path: self.path.clone(),
            change: self.change.clone(),
            title: self.title.clone(),
            content: self.content.clone(),
        }
    }
}

/// What the agenda offers.
#[derive(Debug, Clone, PartialEq, Eq)]
pub enum AgendaSelection {
    Absent,
    Next(AgendaAssignment),
    Complete,
}

pub enum SelectionView {
    Absent,
    Next(AssignmentView),
    Complete,
}

impl View for AgendaSelection {
    type V = SelectionView;

    open spec fn view(&self) -> SelectionView {
        match *self {
            AgendaSelection::Absent => SelectionView::Absent,
            AgendaSelection::Next(a) => SelectionView::Next(a@),
            AgendaSelection::Complete => SelectionView::Complete,
        }
    }
}

/// A file of the agenda directory.
#[derive(Debug, Clone, PartialEq, Eq)]
pub struct AgendaFile {
    pub name: String,
    pub content: String,
}

/// The number and the stem of a slice's file name.
pub open spec fn slice_name(file_name: Seq<char>) -> Option<(nat, Seq<char>)> {
    match before_suffix(file_name, ".md"@) {
        None => None,
        Some(stem) => match find_from(stem, "-"@, 0) {
            None => None,
            Some(k) => {
                let number = stem.subrange(0, k);
                let slug = stem.subrange(k + 1, stem.len() as int);
                if number.len() > 0 && all_digits(number) && slug.len() > 0 && kebab(slug)
                    && decimal_value(number) <= u32::MAX {
                    Some((decimal_value(number), stem))
                } else {
                    None
                }
            },
        },
    }
}

/// Whether a text is made of small letters, digits and hyphens.
pub open spec fn kebab(s: Seq<char>) -> bool {
    forall|i: int| 0 <= i < s.len() ==> kebab_char(#[trigger] s[i])
}

pub open spec fn kebab_char(c: char) -> bool {
    lower(c) || digit(c) || c == '-'
}

/// Whether a text is made of small letters, digits and hyphens.
pub fn is_kebab(s: &str) -> (r: bool)
    ensures
        r == kebab(s@),
{
    let v = chars_of(s);
    let mut i: usize = 0;
    while i < v.len()
        invariant
            v@ == s@,
            i <= v@.len(),
            forall|k: int| 0 <= k < i ==> kebab_char(#[trigger] v@[k]),
        decreases v@.len() - i,
    {
        let c = v[i];
        if !(is_lower(c) || is_digit(c) || c == '-') {
            assert(!kebab_char(s@[i as int]));
            return false;
        }
        i += 1;
    }
    true
}

/// Whether a text holds nothing but digits.
pub fn only_digits(s: &str) -> (r: bool)
    ensures
        r == all_digits(s@),
{
    let v = chars_of(s);
    let mut i: usize = 0;
    while i < v.len()
        invariant
            v@ == s@,
            i <= v@.len(),
            forall|k: int| 0 <= k < i ==> digit(#[trigger] v@[k]),
        decreases v@.len() - i,
    {
        if !is_digit(v[i]) {
            assert(!digit(s@[i as int]));
            return false;
        }
        i += 1;
    }
    true
}

/// Reads the number and the stem off a slice's file name, which is
/// `<number>-<slug>.md`. `None` for every other name.
pub fn parse_slice_name(file_name: &str) -> (r: Option<(u32, String)>)
    ensures
        match r {
            Some((number, stem)) => slice_name(file_name@) == Some((number as nat, stem@)),
            None => slice_name(file_name@) is None,
        },
{
    proof {
        reveal_strlit("-");
    }
    let stem = match strip_suffix(file_name, ".md") {
        None => return None,
        Some(stem) => stem,
    };
    let v = chars_of(stem.as_str());
    let dash = chars_of("-");
    proof {
        lemma_find_from(stem@, "-"@, 0);
    }
    let k = match find_chars(&v, &dash, 0) {
        None => return None,
        Some(k) => k,
    };
    let number = string_of(&v, 0, k);
    let slug = string_of(&v, k + 1, v.len());
    if number.as_str().unicode_len() == 0 || !only_digits(number.as_str())
        || slug.as_str().unicode_len() == 0 || !is_kebab(slug.as_str()) {
        return None;
    }
    assert(digit(number@[0]));
    assert(unsigned_value(number@) == Some(decimal_value(number@)));
    match parse_unsigned(number.as_str()) {
        Some(n) => {
            if n <= 0xffff_ffff {
                Some((n as u32, stem))
            } else {
                None
            }
        },
        None => None,
    }
}

/// A slice as its file gives it.
pub struct SliceView {
    pub number: nat,
    pub stem: Seq<char>,
    pub path: Seq<char>,
    pub title: Seq<char>,
    pub content: Seq<char>,
}

struct SliceFile {
    number: u32,
    stem: String,
    path: String,
    title: String,
    content: String,
}

impl View for SliceFile {
    type V = SliceView;

    closed spec fn view(&self) -> SliceView {
        SliceView {
            number: self.number as nat,
            stem: self.stem@,
            path: self.path@,
            title: self.title@,
            content: self.content@,
        }
    }
}

spec fn views(v: Seq<SliceFile>) -> Seq<SliceView> {
    v.map_values(|s: SliceFile| s@)
}

/// The first heading of a slice, or `otherwise` where it has none.
pub open spec fn heading(lines: Seq<Seq<char>>, otherwise: Seq<char>) -> Seq<char>
    decreases lines.len(),
{
    if lines.len() == 0 {
        otherwise
    } else {
        match after_prefix(lines[0], "# "@) {
            Some(title) => title,
            None => heading(lines.drop_first(), otherwise),
        }
    }
}

fn title_of(content: &str, stem: &str) -> (r: String)
    ensures
        r@ == heading(lines_of(content@), stem@),
{
    let all = lines(content);
    let mut i: usize = 0;
    assert(texts(all@).skip(0) =~= texts(all@));
    while i < all.len()
        invariant
            i <= all@.len(),
            texts(all@) == lines_of(content@),
            heading(lines_of(content@), stem@) == heading(texts(all@).skip(i as int), stem@),
        decreases all@.len() - i,
    {
        proof {
            assert(texts(all@).skip(i as int)[0] == all@[i as int]@);
            assert(texts(all@).skip(i as int).drop_first() =~= texts(all@).skip(i + 1));
        }
        match strip_prefix(all[i].as_str(), "# ") {
            Some(title) => {
                return title;
            },
            None => {},
        }
        i += 1;
    }
    stem.to_owned()
}

/// The slice that a file is, where its name is that of a slice.
pub open spec fn slice_of(name: Seq<char>, content: Seq<char>) -> Option<SliceView> {
    match slice_name(name) {
        Some((number, stem)) => Some(
            SliceView {
                number,
                stem,
                path: SLICES_DIR@ + "/"@ + name,
                title: heading(lines_of(content), stem),
                content,
            },
        ),
        None => None,
    }
}

/// The slices among the files, in the order of the files.
pub open spec fn slices_of(files: Seq<AgendaFile>) -> Seq<SliceView>
    decreases files.len(),
{
    if files.len() == 0 {
        Seq::empty()
    } else {
        let rest = slices_of(files.drop_last());
        match slice_of(files.last().name@, files.last().content@) {
            Some(slice) => rest.push(slice),
            None => rest,
        }
    }
}

/// The order of the agenda: by number, then by stem.
pub open spec fn slice_before(a: SliceView, b: SliceView) -> bool {
    a.number < b.number || (a.number == b.number && before(a.stem, b.stem))
}

/// `s` with `x` put behind everything that does not come after it.
pub open spec fn placed(s: Seq<SliceView>, x: SliceView) -> Seq<SliceView>
    decreases s.len(),
{
    if s.len() == 0 || !slice_before(x, s.last()) {
        s.push(x)
    } else {
        placed(s.drop_last(), x).push(s.last())
    }
}

/// The slices in the order of the agenda.
pub open spec fn ordered(s: Seq<SliceView>) -> Seq<SliceView>
    decreases s.len(),
{
    if s.len() == 0 {
        s
    } else {
        placed(ordered(s.drop_last()), s.last())
    }
}

/// Whether no slice stands before one that precedes it in the agenda's order.
pub open spec fn in_order(s: Seq<SliceView>) -> bool {
    forall|i: int, j: int| 0 <= i < j < s.len() ==> !slice_before(#[trigger] s[j], #[trigger] s[i])
}

proof fn lemma_slice_before_total(a: SliceView, b: SliceView)
    ensures
        !(slice_before(a, b) && slice_before(b, a)),
        !slice_before(a, b) && !slice_before(b, a) ==> a.number == b.number && a.stem == b.stem,
{
    lemma_before_total(a.stem, b.stem);
}

proof fn lemma_slice_before_transitive(a: SliceView, b: SliceView, c: SliceView)
    requires
        slice_before(a, b),
        slice_before(b, c),
    ensures
        slice_before(a, c),
{
    if a.number == b.number && b.number == c.number {
        lemma_before_transitive(a.stem, b.stem, c.stem);
    }
}

proof fn lemma_placed(s: Seq<SliceView>, x: SliceView)
    requires
        in_order(s),
    ensures
        in_order(placed(s, x)),
        placed(s, x).len() == s.len() + 1,
        placed(s, x).to_multiset() == s.to_multiset().insert(x),
    decreases s.len(),
{
    s.to_multiset_ensures();
    let all = placed(s, x);
    if s.len() == 0 || !slice_before(x, s.last()) {
        assert forall|i: int, j: int| 0 <= i < j < all.len() implies !slice_before(
            #[trigger] all[j],
            #[trigger] all[i],
        ) by {
            if j == s.len() && slice_before(x, s[i]) {
                lemma_slice_before_total(x, s.last());
                lemma_slice_before_total(s[i], s.last());
                if slice_before(s[i], s.last()) {
                    lemma_slice_before_transitive(x, s[i], s.last());
                } else if i < s.len() - 1 {
                    assert(!slice_before(s[s.len() - 1], s[i]));
                }
            }
        }
    } else {
        let front = s.drop_last();
        lemma_placed(front, x);
        let rest = placed(front, x);
        rest.to_multiset_ensures();
        front.to_multiset_ensures();
        assert(front.push(s.last()) =~= s);
        assert(all.to_multiset() =~= s.to_multiset().insert(x));
        assert forall|i: int, j: int| 0 <= i < j < all.len() implies !slice_before(
            #[trigger] all[j],
            #[trigger] all[i],
        ) by {
            if j == rest.len() {
                assert(rest.contains(rest[i]));
                assert(rest.to_multiset().count(rest[i]) > 0);
                lemma_slice_before_total(x, s.last());
                if rest[i] != x {
                    assert(front.to_multiset().count(rest[i]) > 0);
                    assert(front.contains(rest[i]));
                    let k = choose|k: int| 0 <= k < front.len() && front[k] == rest[i];
                    assert(!slice_before(s[s.len() - 1], s[k]));
                }
            }
        }
    }
}

/// Putting slices in order loses none, adds none, and leaves them in order.
pub proof fn law_ordered(s: Seq<SliceView>)
    ensures
        in_order(ordered(s)),
        ordered(s).to_multiset() == s.to_multiset(),
        ordered(s).len() == s.len(),
    decreases s.len(),
{
    if s.len() > 0 {
        law_ordered(s.drop_last());
        lemma_placed(ordered(s.drop_last()), s.last());
        s.drop_last().to_multiset_ensures();
        assert(s.drop_last().push(s.last()) =~= s);
    }
}

/// Whether a change is one for the slice: it has the slice's stem, or ends with it.
pub open spec fn matches_stem(name: Seq<char>, stem: Seq<char>) -> bool {
    name == stem || ends(name, "-"@ + stem)
}

/// The changes for a slice.
pub open spec fn matching(names: Seq<Seq<char>>, stem: Seq<char>) -> Seq<Seq<char>> {
    names.filter(|name: Seq<char>| matches_stem(name, stem))
}

/// What is reported where several changes are for one slice.
pub open spec fn ambiguous(names: Seq<Seq<char>>, stem: Seq<char>, kind: Seq<char>) -> Seq<char> {
    "multiple "@ + kind + " OpenSpec changes match agenda slice `"@ + stem + "`: "@ + joined(
        matching(names, stem),
        ", "@,
    )
}

/// The one change for a slice. Several are refused.
pub fn unique_match(names: &Vec<String>, stem: &str, kind: &str) -> (r: Result<
    Option<String>,
    Failure,
>)
    ensures
        match r {
            Ok(None) => matching(texts(names@), stem@).len() == 0,
            Ok(Some(name)) => matching(texts(names@), stem@) == seq![name@],
            Err(e) => matching(texts(names@), stem@).len() > 1 && e.message@ == ambiguous(
                texts(names@),
                stem@,
                kind@,
            ),
        },
{
    let suffix = cat2("-", stem);
    let mut found: Vec<String> = Vec::new();
    let mut i: usize = 0;
    let ghost pred = |name: Seq<char>| matches_stem(name, stem@);
    let ghost all = texts(names@);
    proof {
        reveal(Seq::filter);
    }
    assert(texts(found@) =~= all.take(0).filter(pred));
    while i < names.len()
        invariant
            i <= names@.len(),
            all == texts(names@),
            pred == (|name: Seq<char>| matches_stem(name, stem@)),
            suffix@ == "-"@ + stem@,
            texts(found@) == all.take(i as int).filter(pred),
        decreases names@.len() - i,
    {
        proof {
            reveal(Seq::filter);
            let next = all.take(i + 1);
            assert(next.drop_last() =~= all.take(i as int));
            assert(next.last() == names@[i as int]@);
        }
        let name = names[i].as_str();
        if equal(name, stem) || ends_with(name, suffix.as_str()) {
            let item = names[i].clone();
            proof {
                lemma_texts_push(found@, item);
            }
            found.push(item);
        }
        i += 1;
    }
    assert(all.take(i as int) =~= all);
    if found.len() == 0 {
        return Ok(None);
    }
    if found.len() == 1 {
        let only = found[0].clone();
        assert(texts(found@) =~= seq![only@]);
        return Ok(Some(only));
    }
    let list = join(&found, ", ");
    let head = cat3("multiple ", kind, " OpenSpec changes match agenda slice `");
    let message = head.concat(stem).concat("`: ").concat(list.as_str());
    fail(message)
}

/// What is reported where two slices have one number.
pub open spec fn duplicate_number(a: SliceView, b: SliceView) -> Seq<char> {
    "agenda contains duplicate slice number "@ + zero_padded(decimal(a.number), 3) + ": `"@ + a.path
        + "` and `"@ + b.path + "`"@
}

/// The first position at which two neighbours have one number.
pub open spec fn first_duplicate(s: Seq<SliceView>, from: int) -> Option<int>
    decreases s.len() - from,
{
    if from < 0 || from + 1 >= s.len() {
        None
    } else if s[from].number == s[from + 1].number {
        Some(from)
    } else {
        first_duplicate(s, from + 1)
    }
}

/// The next slice of an ordered agenda from `from` on: the first that is not archived,
/// for its active change where it has one.
pub open spec fn next_slice(
    s: Seq<SliceView>,
    archived: Seq<Seq<char>>,
    active: Seq<Seq<char>>,
    from: int,
) -> Result<SelectionView, Seq<char>>
    decreases s.len() - from,
{
    if from < 0 || from >= s.len() {
        Ok(SelectionView::Complete)
    } else {
        let slice = s[from];
        let done = matching(archived, slice.stem);
        let open = matching(active, slice.stem);
        if done.len() > 1 {
            Err(ambiguous(archived, slice.stem, "archived"@))
        } else if done.len() == 1 {
            next_slice(s, archived, active, from + 1)
        } else if open.len() > 1 {
            Err(ambiguous(active, slice.stem, "active"@))
        } else {
            Ok(
                SelectionView::Next(
                    AssignmentView {
                        path: slice.path,
                        change: if open.len() == 1 {
                            open[0]
                        } else {
                            slice.stem
                        },
                        title: slice.title,
                        content: slice.content,
                    },
                ),
            )
        }
    }
}

/// What the agenda offers, given the files of its directory and the names of the
/// archived and the active changes.
pub open spec fn selection(
    files: Seq<AgendaFile>,
    archived: Seq<Seq<char>>,
    active: Seq<Seq<char>>,
) -> Result<SelectionView, Seq<char>> {
    let all = ordered(slices_of(files));
    if all.len() == 0 {
        Ok(SelectionView::Absent)
    } else {
        match first_duplicate(all, 0) {
            Some(i) => Err(duplicate_number(all[i], all[i + 1])),
            None => next_slice(all, archived, active, 0),
        }
    }
}

/// A result with what it holds by view.
pub open spec fn selected(r: Result<AgendaSelection, Failure>) -> Result<SelectionView, Seq<char>> {
    match r {
        Ok(s) => Ok(s@),
        Err(e) => Err(e.message@),
    }
}

/// The slice that is offered is not archived, and every slice before it is.
pub proof fn law_next_slice_is_first_unarchived(
    s: Seq<SliceView>,
    archived: Seq<Seq<char>>,
    active: Seq<Seq<char>>,
    from: int,
) -> (k: int)
    requires
        0 <= from <= s.len(),
        next_slice(s, archived, active, from) matches Ok(SelectionView::Next(_)),
    ensures
        from <= k < s.len(),
        matching(archived, s[k].stem).len() == 0,
        forall|i: int| from <= i < k ==> matching(archived, #[trigger] s[i].stem).len() == 1,
        next_slice(s, archived, active, from) matches Ok(SelectionView::Next(a)) && a.path
            == s[k].path && a.content == s[k].content,
    decreases s.len() - from,
{
    if matching(archived, s[from].stem).len() == 1 {
        law_next_slice_is_first_unarchived(s, archived, active, from + 1)
    } else {
        from
    }
}

/// The agenda is complete only when every slice is archived.
pub proof fn law_complete_means_all_archived(
    s: Seq<SliceView>,
    archived: Seq<Seq<char>>,
    active: Seq<Seq<char>>,
    from: int,
)
    requires
        0 <= from <= s.len(),
        next_slice(s, archived, active, from) == Ok::<SelectionView, Seq<char>>(
            SelectionView::Complete,
        ),
    ensures
        forall|i: int| from <= i < s.len() ==> matching(archived, #[trigger] s[i].stem).len() == 1,
    decreases s.len() - from,
{
    if from < s.len() {
        law_complete_means_all_archived(s, archived, active, from + 1);
        assert forall|i: int| from <= i < s.len() implies matching(
            archived,
            #[trigger] s[i].stem,
        ).len() == 1 by {
            if i > from {
                assert(from + 1 <= i);
            }
        }
    }
}

fn comes_before(a: &SliceFile, b: &SliceFile) -> (r: bool)
    ensures
        r == slice_before(a@, b@),
{
    a.number < b.number || (a.number == b.number && is_before(a.stem.as_str(), b.stem.as_str()))
}

proof fn lemma_placed_at(s: Seq<SliceView>, x: SliceView, i: int)
    requires
        0 <= i <= s.len(),
        forall|k: int| i <= k < s.len() ==> slice_before(x, #[trigger] s[k]),
        i == 0 || !slice_before(x, s[i - 1]),
    ensures
        placed(s, x) == s.insert(i, x),
    decreases s.len(),
{
    if i == s.len() {
        assert(s.insert(i, x) =~= s.push(x));
    } else {
        assert(slice_before(x, s[s.len() - 1]));
        lemma_placed_at(s.drop_last(), x, i);
        assert(s.insert(i, x) =~= s.drop_last().insert(i, x).push(s.last()));
    }
}

fn place(list: &mut Vec<SliceFile>, slice: SliceFile)
    ensures
        views(final(list)@) == placed(views(old(list)@), slice@),
{
    let mut i: usize = list.len();
    while i > 0 && comes_before(&slice, &list[i - 1])
        invariant
            list@ == old(list)@,
            i <= list@.len(),
            forall|k: int| i <= k < list@.len() ==> slice_before(slice@, #[trigger] views(list@)[k]),
        decreases i,
    {
        i -= 1;
    }
    proof {
        lemma_placed_at(views(list@), slice@, i as int);
        assert(views(list@.insert(i as int, slice)) =~= views(list@).insert(i as int, slice@));
    }
    list.insert(i, slice);
}

fn collect(files: &Vec<AgendaFile>) -> (r: Vec<SliceFile>)
    ensures
        views(r@) == ordered(slices_of(files@)),
{
    let mut out: Vec<SliceFile> = Vec::new();
    let mut i: usize = 0;
    assert(files@.take(0) =~= Seq::empty());
    assert(views(out@) =~= ordered(slices_of(files@.take(0))));
    while i < files.len()
        invariant
            i <= files@.len(),
            views(out@) == ordered(slices_of(files@.take(i as int))),
        decreases files@.len() - i,
    {
        let name = files[i].name.as_str();
        proof {
            assert(files@.take(i + 1).drop_last() =~= files@.take(i as int));
            assert(files@.take(i + 1).last() == files@[i as int]);
        }
        if let Some((number, stem)) = parse_slice_name(name) {
            let title = title_of(files[i].content.as_str(), stem.as_str());
            let slice = SliceFile {
                number,
                stem,
                path: cat3(SLICES_DIR, "/", name),
                title,
                content: files[i].content.clone(),
            };
            proof {
                let found = slices_of(files@.take(i as int));
                assert(found.push(slice@).drop_last() =~= found);
            }
            place(&mut out, slice);
        }
        i += 1;
    }
    assert(files@.take(i as int) =~= files@);
    out
}

/// Selects the next slice of the agenda, given the files of its directory and the
/// names of the archived and the active changes.
pub fn discover(files: &Vec<AgendaFile>, archived: &Vec<String>, active: &Vec<String>) -> (r: Result<
    AgendaSelection,
    Failure,
>)
    ensures
        selected(r) == selection(files@, texts(archived@), texts(active@)),
{
    let slices = collect(files);
    let ghost all = views(slices@);
    if slices.len() == 0 {
        return Ok(AgendaSelection::Absent);
    }
    let mut i: usize = 0;
    while i < slices.len() - 1
        invariant
            i < slices@.len(),
            all == views(slices@),
            all == ordered(slices_of(files@)),
            first_duplicate(all, 0) == first_duplicate(all, i as int),
        decreases slices@.len() - i,
    {
        if slices[i].number == slices[i + 1].number {
            let number = padded_text(slices[i].number as u64, 3);
            let message = cat3("agenda contains duplicate slice number ", number.as_str(), ": `")
                .concat(slices[i].path.as_str()).concat("` and `").concat(
                slices[i + 1].path.as_str(),
            ).concat("`");
            return fail(message);
        }
        i += 1;
    }
    let mut k: usize = 0;
    while k < slices.len()
        invariant
            k <= slices@.len(),
            slices@.len() > 0,
            all == views(slices@),
            all == ordered(slices_of(files@)),
            first_duplicate(all, 0) is None,
            next_slice(all, texts(archived@), texts(active@), 0) == next_slice(
                all,
                texts(archived@),
                texts(active@),
                k as int,
            ),
        decreases slices@.len() - k,
    {
        let slice = &slices[k];
        match unique_match(archived, slice.stem.as_str(), "archived") {
            Err(e) => {
                return Err(e);
            },
            Ok(Some(_)) => {},
            Ok(None) => {
                match unique_match(active, slice.stem.as_str(), "active") {
                    Err(e) => {
                        return Err(e);
                    },
                    Ok(found) => {
                        let change = match found {
                            Some(name) => name,
                            None => slice.stem.clone(),
                        };
                        return Ok(
                            AgendaSelection::Next(
                                AgendaAssignment {
                                    path: slice.path.clone(),
                                    change,
                                    title: slice.title.clone(),
                                    content: slice.content.clone(),
                                },
                            ),
                        );
                    },
                }
            },
        }
        k += 1;
    }
    Ok(AgendaSelection::Complete)
}

/// Whether an assignment is the terminal slice that ends the agenda.
pub open spec fn terminal(assignment: AssignmentView) -> bool {
    assignment.path == TERMINAL_PATH@
}

pub fn is_terminal_assignment(assignment: &AgendaAssignment) -> (r: bool)
    ensures
        r == terminal(assignment@),
{
    equal(assignment.path.as_str(), TERMINAL_PATH)
}

/// The ordinal of a slice, from its path: what stands in its file's name before the first
/// hyphen.
pub open spec fn ordinal_in(path: Seq<char>) -> Option<Seq<char>> {
    match after_prefix(path, "automation/slices/"@) {
        Some(name) => match cut_at(name, '-') {
            Some(parts) => Some(parts.0),
            None => None,
        },
        None => None,
    }
}

/// Whether a slice has child slices: files whose ordinals continue its own after a period.
pub fn has_subdivision(files: &Vec<AgendaFile>, original: &AgendaAssignment) -> (r: bool)
    ensures
        r == match ordinal_in(original.path@) {
            Some(ordinal) => exists|i: int|
                0 <= i < files@.len() && starts((#[trigger] files@[i]).name@, ordinal + "."@),
            None => false,
        },
{
    let name = match strip_prefix(original.path.as_str(), "automation/slices/") {
        Some(name) => name,
        None => {
            return false;
        },
    };
    let prefix = match split_once(name.as_str(), '-') {
        Some((ordinal, _)) => cat2(ordinal.as_str(), "."),
        None => {
            return false;
        },
    };
    let mut i: usize = 0;
    while i < files.len()
        invariant
            i <= files@.len(),
            ordinal_in(original.path@) matches Some(ordinal) && prefix@ == ordinal + "."@,
            forall|k: int| 0 <= k < i ==> !starts((#[trigger] files@[k]).name@, prefix@),
        decreases files@.len() - i,
    {
        if starts_with(files[i].name.as_str(), prefix.as_str()) {
            return true;
        }
        i += 1;
    }
    false
}

// What an agenda is

/// Every file named by a number and a slug is a slice: digits that fit, a hyphen, and small
/// letters, digits and hyphens, with the ending of Markdown. It has the number that the
/// digits say, and its stem is the name without the ending.
pub proof fn law_numbered_files_are_slices(number: Seq<char>, slug: Seq<char>)
    requires
        number.len() > 0,
        slug.len() > 0,
        forall|i: int| 0 <= i < number.len() ==> '0' <= #[trigger] number[i] && number[i] <= '9',
        forall|i: int|
            0 <= i < slug.len() ==> ('a' <= #[trigger] slug[i] && slug[i] <= 'z') || ('0' <= slug[i]
                && slug[i] <= '9') || slug[i] == '-',
        decimal_value(number) <= u32::MAX,
    ensures
        slice_name(number + "-"@ + slug + ".md"@) == Some(
            (decimal_value(number), number + "-"@ + slug),
        ),
{
    reveal_strlit("-");
    let stem = number + "-"@ + slug;
    law_prefixes_and_suffixes_come_off(".md"@, stem);
    let k = number.len() as int;
    lemma_find_from(stem, "-"@, 0);
    assert(stem.subrange(k, k + 1) =~= "-"@);
    assert(occurs_at(stem, "-"@, k));
    assert forall|i: int| 0 <= i < k implies !#[trigger] occurs_at(stem, "-"@, i) by {
        if occurs_at(stem, "-"@, i) {
            assert(stem.subrange(i, i + 1)[0] == number[i]);
        }
    }
    assert(find_from(stem, "-"@, 0) == Some(k));
    assert(stem.subrange(0, k) =~= number);
    assert(stem.subrange(k + 1, stem.len() as int) =~= slug);
}

/// Nothing else is a slice: a slice's name is its stem with the ending of Markdown, and the
/// stem is digits, which say its number, a hyphen, and a slug that is not empty.
pub proof fn law_slices_are_numbered_files(name: Seq<char>) -> (k: int)
    requires
        slice_name(name) is Some,
    ensures
        ({
            let stem = slice_name(name)->Some_0.1;
            &&& name == stem + ".md"@
            &&& 0 < k < stem.len() - 1
            &&& stem[k] == '-'
            &&& forall|i: int| 0 <= i < k ==> '0' <= #[trigger] stem[i] && stem[i] <= '9'
            &&& forall|i: int|
                k < i < stem.len() ==> ('a' <= #[trigger] stem[i] && stem[i] <= 'z') || ('0'
                    <= stem[i] && stem[i] <= '9') || stem[i] == '-'
            &&& decimal_value(stem.take(k)) == slice_name(name)->Some_0.0
            &&& slice_name(name)->Some_0.0 <= u32::MAX
        }),
{
    reveal_strlit("-");
    law_prefixes_and_suffixes_come_off(".md"@, name);
    let stem = slice_name(name)->Some_0.1;
    let k = find_from(stem, "-"@, 0)->0;
    lemma_find_from(stem, "-"@, 0);
    assert(stem.subrange(k, k + 1)[0] == stem[k]);
    let number = stem.subrange(0, k);
    let slug = stem.subrange(k + 1, stem.len() as int);
    assert(stem.take(k) =~= number);
    assert forall|i: int| 0 <= i < k implies '0' <= #[trigger] stem[i] && stem[i] <= '9' by {
        assert(number[i] == stem[i]);
    }
    assert forall|i: int| k < i < stem.len() implies ('a' <= #[trigger] stem[i] && stem[i] <= 'z')
        || ('0' <= stem[i] && stem[i] <= '9') || stem[i] == '-' by {
        assert(slug[i - k - 1] == stem[i]);
    }
    k
}

/// The title of a slice is its first line that begins with a hash and a blank, without them,
/// and its stem where it has no such line.
pub proof fn law_titles_are_first_headings(before: Seq<Seq<char>>, title: Seq<char>, after: Seq<Seq<char>>, stem: Seq<char>)
    requires
        forall|i: int| 0 <= i < before.len() ==> !starts(#[trigger] before[i], "# "@),
    ensures
        heading(before, stem) == stem,
        heading(before + seq!["# "@ + title] + after, stem) == title,
    decreases before.len(),
{
    let line = "# "@ + title;
    let all = before + seq![line] + after;
    law_prefixes_and_suffixes_come_off("# "@, title);
    if before.len() > 0 {
        let rest = before.drop_first();
        assert forall|i: int| 0 <= i < rest.len() implies !starts(#[trigger] rest[i], "# "@) by {
            assert(rest[i] == before[i + 1]);
        }
        law_titles_are_first_headings(rest, title, after, stem);
        assert(all[0] == before[0]);
        assert(!starts(before[0], "# "@));
        assert(all.drop_first() =~= rest + seq![line] + after);
    } else {
        assert(all[0] == line);
    }
}

/// Whether a change with this name is one for a slice: it is named like the slice, with or
/// without something and a hyphen in front.
pub open spec fn named_for(name: Seq<char>, stem: Seq<char>) -> bool {
    name == stem || (name.len() > stem.len() && name[name.len() - stem.len() - 1] == '-'
        && name.skip(name.len() - stem.len()) == stem)
}

proof fn lemma_matches_stem(name: Seq<char>, stem: Seq<char>)
    ensures
        matches_stem(name, stem) <==> named_for(name, stem),
{
    reveal_strlit("-");
    let tail = "-"@ + stem;
    let at = name.len() - tail.len();
    if ends(name, tail) {
        let w = name.subrange(at, at + tail.len());
        assert(w[0] == name[at]);
        assert(tail[0] == '-');
        assert(name.skip(at + 1) =~= tail.skip(1));
        assert(tail.skip(1) =~= stem);
    }
    if named_for(name, stem) && name != stem {
        assert(name.skip(at + 1) == stem);
        assert(name.subrange(at, at + tail.len()) =~= tail) by {
            assert forall|i: int| 0 <= i < tail.len() implies name.subrange(
                at,
                at + tail.len(),
            )[i] == tail[i] by {
                if i > 0 {
                    assert(name.skip(at + 1)[i - 1] == name[at + i]);
                    assert(tail[i] == stem[i - 1]);
                }
            }
        }
    }
}

/// The changes for a slice are exactly those that are named for it, in the order in which
/// they are given.
pub proof fn law_changes_are_found_by_name(names: Seq<Seq<char>>, stem: Seq<char>, name: Seq<char>)
    ensures
        matching(names, stem).contains(name) <==> names.contains(name) && named_for(name, stem),
        matching(names, stem).len() == 0 <==> forall|i: int|
            0 <= i < names.len() ==> !named_for(#[trigger] names[i], stem),
{
    let found = matching(names, stem);
    let wanted = |n: Seq<char>| matches_stem(n, stem);
    lemma_matches_stem(name, stem);
    lemma_filter_member(names, wanted, name);
    assert forall|i: int| 0 <= i < names.len() implies (#[trigger] named_for(names[i], stem)
        <==> found.contains(names[i])) by {
        lemma_matches_stem(names[i], stem);
        lemma_filter_member(names, wanted, names[i]);
    }
    if found.len() == 0 {
        assert forall|i: int| 0 <= i < names.len() implies !named_for(#[trigger] names[i], stem) by {
            assert(!found.contains(names[i]));
        }
    }
    if found.len() > 0 {
        let first = found[0];
        assert(found.contains(first));
        lemma_matches_stem(first, stem);
        lemma_filter_member(names, wanted, first);
        let i = choose|i: int| 0 <= i < names.len() && names[i] == first;
        assert(named_for(names[i], stem));
    }
}

/// What a filter keeps is what is wanted of what there is.
pub proof fn lemma_filter_member(s: Seq<Seq<char>>, wanted: spec_fn(Seq<char>) -> bool, x: Seq<char>)
    ensures
        s.filter(wanted).contains(x) <==> s.contains(x) && wanted(x),
    decreases s.len(),
{
    reveal(Seq::filter);
    if s.len() > 0 {
        let rest = s.drop_last();
        lemma_filter_member(rest, wanted, x);
        let f = rest.filter(wanted);
        if wanted(s.last()) {
            assert(s.filter(wanted) == f.push(s.last()));
            if f.contains(x) {
                let k = choose|k: int| 0 <= k < f.len() && f[k] == x;
                assert(f.push(s.last())[k] == x);
            }
            if f.push(s.last()).contains(x) {
                let k = choose|k: int| 0 <= k < f.push(s.last()).len() && f.push(s.last())[k] == x;
                if k < f.len() {
                    assert(f[k] == x);
                }
            }
            assert(f.push(s.last())[f.len() as int] == s.last());
        }
        if rest.contains(x) {
            let k = choose|k: int| 0 <= k < rest.len() && rest[k] == x;
            assert(s[k] == x);
        }
        if s.contains(x) {
            let k = choose|k: int| 0 <= k < s.len() && s[k] == x;
            if k < rest.len() {
                assert(rest[k] == x);
            }
        }
        assert(s[s.len() - 1] == s.last());
    }
}

proof fn lemma_slices_come_from_files(files: Seq<AgendaFile>, x: SliceView)
    ensures
        slices_of(files).contains(x) <==> exists|i: int|
            0 <= i < files.len() && slice_of((#[trigger] files[i]).name@, files[i].content@)
                == Some(x),
    decreases files.len(),
{
    if files.len() > 0 {
        let rest = files.drop_last();
        lemma_slices_come_from_files(rest, x);
        let last = files.last();
        let old = slices_of(rest);
        if slice_of(last.name@, last.content@) is Some {
            let y = slice_of(last.name@, last.content@)->0;
            assert(slices_of(files) == old.push(y));
            if old.contains(x) {
                let k = choose|k: int| 0 <= k < old.len() && old[k] == x;
                assert(old.push(y)[k] == x);
            }
            if old.push(y).contains(x) {
                let k = choose|k: int| 0 <= k < old.push(y).len() && old.push(y)[k] == x;
                if k < old.len() {
                    assert(old[k] == x);
                }
            }
            assert(old.push(y)[old.len() as int] == y);
        }
        if slices_of(rest).contains(x) {
            let i = choose|i: int|
                0 <= i < rest.len() && slice_of((#[trigger] rest[i]).name@, rest[i].content@)
                    == Some(x);
            assert(files[i] == rest[i]);
        }
        if exists|i: int|
            0 <= i < files.len() && slice_of((#[trigger] files[i]).name@, files[i].content@)
                == Some(x) {
            let i = choose|i: int|
                0 <= i < files.len() && slice_of((#[trigger] files[i]).name@, files[i].content@)
                    == Some(x);
            if i < rest.len() {
                assert(rest[i] == files[i]);
            } else {
                assert(files[i] == last);
            }
        }
        assert(files[files.len() - 1] == last);
    }
}

proof fn lemma_ordered_member(s: Seq<SliceView>, x: SliceView)
    ensures
        ordered(s).contains(x) <==> s.contains(x),
{
    broadcast use vstd::seq_lib::group_to_multiset_ensures;

    law_ordered(s);
    assert(ordered(s).contains(x) <==> ordered(s).to_multiset().count(x) > 0);
    assert(s.contains(x) <==> s.to_multiset().count(x) > 0);
}

/// An agenda is absent exactly where no file is a slice. What it offers is one of its files,
/// with its own content: its number is not archived, and every slice with a smaller number
/// is. It is offered for the change that is named for it, if there is an active one, and
/// else under its own name.
pub proof fn law_the_first_open_slice_is_offered(
    files: Seq<AgendaFile>,
    archived: Seq<Seq<char>>,
    active: Seq<Seq<char>>,
)
    ensures
        selection(files, archived, active) == Ok::<_, Seq<char>>(SelectionView::Absent) <==> forall|
            i: int,
        |
            0 <= i < files.len() ==> slice_name((#[trigger] files[i]).name@) is None,
        selection(files, archived, active) matches Ok(SelectionView::Next(a)) ==> exists|i: int|
            #![trigger files[i]]
            0 <= i < files.len() && offered(files, archived, active, a, i),
        selection(files, archived, active) == Ok::<_, Seq<char>>(SelectionView::Complete)
            ==> forall|j: int|
            #![trigger files[j]]
            0 <= j < files.len() && slice_name(files[j].name@) is Some ==> archived_once(
                archived,
                slice_name(files[j].name@)->Some_0.1,
            ),
{
    let slices = slices_of(files);
    let all = ordered(slices);
    law_ordered(slices);
    if all.len() == 0 {
        assert forall|i: int| 0 <= i < files.len() implies slice_name(
            (#[trigger] files[i]).name@,
        ) is None by {
            if slice_name(files[i].name@) is Some {
                let x = slice_of(files[i].name@, files[i].content@)->0;
                lemma_slices_come_from_files(files, x);
                assert(slices.contains(x));
            }
        }
    } else {
        let x = slices[0];
        assert(slices.contains(x));
        lemma_slices_come_from_files(files, x);
        let i = choose|i: int|
            0 <= i < files.len() && slice_of((#[trigger] files[i]).name@, files[i].content@)
                == Some(x);
        assert(slice_name(files[i].name@) is Some);
    }
    match selection(files, archived, active) {
        Ok(SelectionView::Next(a)) => {
            let k = law_next_slice_is_first_unarchived(all, archived, active, 0);
            let x = all[k];
            assert(all.contains(x));
            lemma_ordered_member(slices, x);
            lemma_slices_come_from_files(files, x);
            let i = choose|i: int|
                0 <= i < files.len() && slice_of((#[trigger] files[i]).name@, files[i].content@)
                    == Some(x);
            lemma_offer(all, archived, active, 0, k);
            law_changes_are_found_by_name(archived, x.stem, x.stem);
            law_changes_are_found_by_name(active, x.stem, x.stem);
            assert forall|j: int| 0 <= j < files.len() && (slice_name(
                (#[trigger] files[j]).name@,
            ) matches Some(p) && p.0 < x.number) implies archived_once(
                archived,
                slice_name(files[j].name@)->Some_0.1,
            ) by {
                let y = slice_of(files[j].name@, files[j].content@)->0;
                lemma_slices_come_from_files(files, y);
                lemma_ordered_member(slices, y);
                let m = choose|m: int| 0 <= m < all.len() && all[m] == y;
                if m >= k {
                    assert(!slice_before(all[m], all[k]) || m == k);
                }
                assert(matching(archived, all[m].stem).len() == 1);
                lemma_one_match(archived, y.stem);
            }
            if matching(active, x.stem).len() > 0 {
                let change = matching(active, x.stem)[0];
                assert(matching(active, x.stem).contains(change));
                law_changes_are_found_by_name(active, x.stem, change);
            }
            assert(offered(files, archived, active, a, i));
            assert(files[i] == files[i]);
        },
        Ok(SelectionView::Complete) => {
            law_complete_means_all_archived(all, archived, active, 0);
            assert forall|j: int|
                #![trigger files[j]]
                0 <= j < files.len() && slice_name(files[j].name@) is Some implies archived_once(
                archived,
                slice_name(files[j].name@)->Some_0.1,
            ) by {
                let y = slice_of(files[j].name@, files[j].content@)->0;
                lemma_slices_come_from_files(files, y);
                lemma_ordered_member(slices, y);
                let m = choose|m: int| 0 <= m < all.len() && all[m] == y;
                assert(matching(archived, all[m].stem).len() == 1);
                lemma_one_match(archived, y.stem);
            }
        },
        _ => {
            if selection(files, archived, active) is Ok && all.len() > 0 {
                lemma_never_absent(all, archived, active, 0);
            }
        },
    }
}

proof fn lemma_never_absent(
    s: Seq<SliceView>,
    archived: Seq<Seq<char>>,
    active: Seq<Seq<char>>,
    from: int,
)
    ensures
        next_slice(s, archived, active, from) != Ok::<_, Seq<char>>(SelectionView::Absent),
    decreases s.len() - from,
{
    if 0 <= from < s.len() {
        lemma_never_absent(s, archived, active, from + 1);
    }
}

/// Whether there is an archived change for a slice.
pub open spec fn archived_once(archived: Seq<Seq<char>>, stem: Seq<char>) -> bool {
    exists|i: int| 0 <= i < archived.len() && named_for(#[trigger] archived[i], stem)
}

proof fn lemma_one_match(archived: Seq<Seq<char>>, stem: Seq<char>)
    requires
        matching(archived, stem).len() == 1,
    ensures
        archived_once(archived, stem),
{
    let name = matching(archived, stem)[0];
    assert(matching(archived, stem).contains(name));
    law_changes_are_found_by_name(archived, stem, name);
    let i = choose|i: int| 0 <= i < archived.len() && archived[i] == name;
    assert(named_for(archived[i], stem));
}

/// Whether an assignment is the file at `i`, open while everything before it is archived.
pub open spec fn offered(
    files: Seq<AgendaFile>,
    archived: Seq<Seq<char>>,
    active: Seq<Seq<char>>,
    a: AssignmentView,
    i: int,
) -> bool {
    slice_name(files[i].name@) matches Some(parsed) && {
        &&& a.path == "automation/slices"@ + "/"@ + files[i].name@
        &&& a.content == files[i].content@
        &&& a.title == heading(lines_of(files[i].content@), parsed.1)
        &&& forall|m: int| 0 <= m < archived.len() ==> !named_for(#[trigger] archived[m], parsed.1)
        &&& a.change == parsed.1 || (active.contains(a.change) && named_for(a.change, parsed.1))
        &&& (exists|m: int| 0 <= m < active.len() && named_for(#[trigger] active[m], parsed.1))
            ==> active.contains(a.change)
        &&& forall|j: int|
            0 <= j < files.len() && (slice_name((#[trigger] files[j]).name@) matches Some(p) && p.0
                < parsed.0) ==> archived_once(archived, slice_name(files[j].name@)->Some_0.1)
    }
}

proof fn lemma_offer(
    s: Seq<SliceView>,
    archived: Seq<Seq<char>>,
    active: Seq<Seq<char>>,
    from: int,
    k: int,
)
    requires
        0 <= from <= k < s.len(),
        matching(archived, s[k].stem).len() == 0,
        forall|i: int| from <= i < k ==> matching(archived, #[trigger] s[i].stem).len() == 1,
        next_slice(s, archived, active, from) is Ok,
    ensures
        next_slice(s, archived, active, from) matches Ok(SelectionView::Next(a)) && a.path
            == s[k].path && a.content == s[k].content && a.title == s[k].title && a.change == (
        if matching(active, s[k].stem).len() == 1 {
            matching(active, s[k].stem)[0]
        } else {
            s[k].stem
        }) && matching(active, s[k].stem).len() <= 1,
    decreases k - from,
{
    if from < k {
        lemma_offer(s, archived, active, from + 1, k);
    }
}

/// No two slices of an agenda that is in use have one number.
pub proof fn law_numbers_are_used_once(
    files: Seq<AgendaFile>,
    archived: Seq<Seq<char>>,
    active: Seq<Seq<char>>,
    i: int,
    j: int,
)
    requires
        selection(files, archived, active) is Ok,
        0 <= i < j < ordered(slices_of(files)).len(),
    ensures
        ordered(slices_of(files))[i].number < ordered(slices_of(files))[j].number,
    decreases j - i,
{
    let all = ordered(slices_of(files));
    law_ordered(slices_of(files));
    lemma_no_duplicate(all, 0, j - 1);
    assert(!slice_before(all[j], all[j - 1]));
    if i < j - 1 {
        law_numbers_are_used_once(files, archived, active, i, j - 1);
    }
}

proof fn lemma_no_duplicate(s: Seq<SliceView>, from: int, k: int)
    requires
        first_duplicate(s, from) is None,
        0 <= from <= k < s.len() - 1,
    ensures
        s[k].number != s[k + 1].number,
    decreases k - from,
{
    if from < k {
        lemma_no_duplicate(s, from + 1, k);
    }
}

} // verus!
