//! The state directory that unattended runs of the second harness use, apart from the
//! user's own.
use crate::failure::{fail, failed, Failure};
use crate::path::{join_path, joined_path};
use crate::text::{
    cat3, digit, ends, ends_with, equal, holds, lowered, push_text, seen_all, starts, starts_with,
    str_option, text_option, texts,
};
use vstd::prelude::*;
use vstd::string::*;

verus! {

/// A state directory that shares the configuration of another one, and nothing else.
#[derive(Debug, Clone, PartialEq, Eq)]
pub struct IsolatedCodexHome {
    pub source: String,
    pub path: String,
}

pub struct HomeView {
    pub source: Seq<char>,
    pub path: Seq<char>,
}

impl View for IsolatedCodexHome {
    type V = HomeView;

    open spec fn view(&self) -> HomeView {
        HomeView { source: self.source@, path: self.path@ }
    }
}

/// The directory beside the configuration in `source`.
pub open spec fn isolated(source: Seq<char>) -> HomeView {
    HomeView { source, path: joined_path(source, "opsx-build"@) }
}

/// The names that are shared where they are there.
pub open spec fn shared_names() -> Seq<Seq<char>> {
    seq![
        "config.toml"@,
        "auth.json"@,
        "AGENTS.md"@,
        "AGENTS.override.md"@,
        "requirements.toml"@,
        "skills"@,
        "plugins"@,
        "rules"@,
        "agents"@,
        "hooks.json"@,
    ]
}

/// The names that are shared of a directory that holds `entries`: the configuration and
/// the credentials in any case, the others where they are there, and then every named
/// profile.
pub open spec fn linked(entries: Seq<Seq<char>>) -> Seq<Seq<char>> {
    shared_names().filter(
        |name: Seq<char>|
            name == "config.toml"@ || name == "auth.json"@ || entries.contains(name),
    ) + entries.filter(|name: Seq<char>| ends(name, ".config.toml"@))
}

impl IsolatedCodexHome {
    pub fn new(source: &str) -> (r: IsolatedCodexHome)
        ensures
            r@ == isolated(source@),
    {
        IsolatedCodexHome { source: source.to_owned(), path: join_path(source, "opsx-build") }
    }

    /// What is shared of the other directory, which holds `entries`.
    pub fn shared(&self, entries: &Vec<String>) -> (r: Vec<String>)
        ensures
            texts(r@) == linked(texts(entries@)),
    {
        let mut known: Vec<String> = Vec::new();
        push_text(&mut known, "config.toml");
        push_text(&mut known, "auth.json");
        push_text(&mut known, "AGENTS.md");
        push_text(&mut known, "AGENTS.override.md");
        push_text(&mut known, "requirements.toml");
        push_text(&mut known, "skills");
        push_text(&mut known, "plugins");
        push_text(&mut known, "rules");
        push_text(&mut known, "agents");
        push_text(&mut known, "hooks.json");
        assert(texts(known@) =~= shared_names());
        let ghost there = texts(entries@);
        let ghost wanted = |name: Seq<char>|
            name == "config.toml"@ || name == "auth.json"@ || there.contains(name);
        let ghost profile = |name: Seq<char>| ends(name, ".config.toml"@);
        let mut out: Vec<String> = Vec::new();
        let mut i: usize = 0;
        proof {
            reveal(Seq::filter);
            assert(shared_names().take(0) =~= Seq::empty());
            assert(texts(out@) =~= Seq::empty());
        }
        while i < known.len()
            invariant
                i <= known@.len(),
                texts(known@) == shared_names(),
                there == texts(entries@),
                wanted == (|name: Seq<char>|
                    name == "config.toml"@ || name == "auth.json"@ || there.contains(name)),
                texts(out@) == shared_names().take(i as int).filter(wanted),
            decreases known@.len() - i,
        {
            let name = known[i].as_str();
            proof {
                reveal(Seq::filter);
                let upto = shared_names().take(i + 1);
                assert(upto.drop_last() =~= shared_names().take(i as int));
                assert(upto.last() == texts(known@)[i as int]);
            }
            if equal(name, "config.toml") || equal(name, "auth.json") || holds(entries, name) {
                push_text(&mut out, name);
            }
            i += 1;
        }
        let ghost first = texts(out@);
        assert(shared_names().take(i as int) =~= shared_names());
        let mut k: usize = 0;
        proof {
            reveal(Seq::filter);
            assert(there.take(0) =~= Seq::empty());
            assert(texts(out@) =~= first + there.take(0).filter(profile));
        }
        while k < entries.len()
            invariant
                k <= entries@.len(),
                there == texts(entries@),
                profile == (|name: Seq<char>| ends(name, ".config.toml"@)),
                texts(out@) == first + there.take(k as int).filter(profile),
            decreases entries@.len() - k,
        {
            let name = entries[k].as_str();
            proof {
                reveal(Seq::filter);
                let upto = there.take(k + 1);
                assert(upto.drop_last() =~= there.take(k as int));
                assert(upto.last() == there[k as int]);
            }
            let ghost was = texts(out@);
            if ends_with(name, ".config.toml") {
                push_text(&mut out, name);
            }
            k += 1;
            assert(texts(out@) =~= first + there.take(k as int).filter(profile));
        }
        assert(there.take(k as int) =~= there);
        out
    }

    /// Where an imported conversation is put, given where it stands among the others.
    pub fn import_target(&self, relative: &str) -> (r: String)
        ensures
            r@ == joined_path(joined_path(self@.path, "sessions"@), relative@),
    {
        let sessions = join_path(self.path.as_str(), "sessions");
        join_path(sessions.as_str(), relative)
    }
}

/// No state of a run is shared: neither its conversations nor its databases.
pub proof fn law_only_configuration_is_shared(entries: Seq<Seq<char>>, name: Seq<char>)
    requires
        linked(entries).contains(name),
    ensures
        shared_names().contains(name) || (entries.contains(name) && ends(name, ".config.toml"@)),
{
    let wanted = |name: Seq<char>|
        name == "config.toml"@ || name == "auth.json"@ || entries.contains(name);
    let profile = |name: Seq<char>| ends(name, ".config.toml"@);
    let a = shared_names().filter(wanted);
    let b = entries.filter(profile);
    let i = choose|i: int| 0 <= i < linked(entries).len() && linked(entries)[i] == name;
    if i < a.len() {
        assert(a[i] == name);
        lemma_filtered(shared_names(), wanted, i);
    } else {
        assert(b[i - a.len()] == name);
        lemma_filtered(entries, profile, i - a.len());
    }
}

proof fn lemma_filtered(s: Seq<Seq<char>>, p: spec_fn(Seq<char>) -> bool, i: int)
    requires
        0 <= i < s.filter(p).len(),
    ensures
        s.contains(s.filter(p)[i]),
        p(s.filter(p)[i]),
    decreases s.len(),
{
    reveal(Seq::filter);
    if s.len() > 0 {
        let front = s.drop_last();
        if p(s.last()) && i == front.filter(p).len() {
            assert(s[s.len() - 1] == s.filter(p)[i]);
        } else {
            lemma_filtered(front, p, i);
            let k = choose|k: int| 0 <= k < front.len() && front[k] == front.filter(p)[i];
            assert(s[k] == s.filter(p)[i]);
        }
    }
}

/// A hexadecimal digit in either case.
pub open spec fn hex_digit(c: char) -> bool {
    digit(c) || ('a' <= c && c <= 'f') || ('A' <= c && c <= 'F')
}

/// Whether a text is five groups of 8, 4, 4, 4 and 12 hexadecimal digits with hyphens between.
pub open spec fn hyphenated(text: Seq<char>) -> bool {
    text.len() == 36 && forall|i: int|
        0 <= i < 36 ==> if i == 8 || i == 13 || i == 18 || i == 23 {
            #[trigger] text[i] == '-'
        } else {
            hex_digit(text[i])
        }
}

/// Whether a text is the identifier of a conversation: 32 hexadecimal digits, or the same in
/// groups, plain, in braces or as a URN.
pub open spec fn uuid_text(text: Seq<char>) -> bool {
    ||| text.len() == 32 && forall|i: int| 0 <= i < 32 ==> hex_digit(#[trigger] text[i])
    ||| hyphenated(text)
    ||| text.len() == 38 && text[0] == '{' && text[37] == '}' && hyphenated(text.subrange(1, 37))
    ||| text.len() == 45 && lowered(text.subrange(0, 9)) == "urn:uuid:"@ && hyphenated(
        text.subrange(9, 45),
    )
}

/// `uuid::Uuid::parse_str`, as far as whether it accepts the text: it takes the four forms
/// that [`uuid_text`] lists, with digits and the prefix of a URN in either case, and no other.
#[verifier::external_body]
fn is_uuid(text: &str) -> (r: bool)
    ensures
        r == uuid_text(text@),
{
    uuid::Uuid::parse_str(text).is_ok()
}

/// Whether a file holds the conversation `thread_id`.
pub open spec fn rollout(name: Seq<char>, thread_id: Seq<char>) -> bool {
    starts(name, "rollout-"@) && (ends(name, "-"@ + thread_id + ".jsonl"@) || ends(
        name,
        "-"@ + thread_id + ".jsonl.zst"@,
    ))
}

/// Whether a file, by its name, holds the conversation `thread_id`.
pub fn is_rollout(name: &str, thread_id: &str) -> (r: bool)
    ensures
        r == rollout(name@, thread_id@),
{
    let plain = cat3("-", thread_id, ".jsonl");
    let packed = cat3("-", thread_id, ".jsonl.zst");
    starts_with(name, "rollout-") && (ends_with(name, plain.as_str()) || ends_with(
        name,
        packed.as_str(),
    ))
}

/// The first file that holds the conversation, from `from` on.
pub open spec fn rollout_index(names: Seq<Seq<char>>, thread_id: Seq<char>, from: int) -> Option<int>
    decreases names.len() - from,
{
    if from < 0 || from >= names.len() {
        None
    } else if rollout(names[from], thread_id) {
        Some(from)
    } else {
        rollout_index(names, thread_id, from + 1)
    }
}

/// Finds the file of a conversation among `names`, the files in the order in which they
/// are come upon.
pub fn find_rollout(names: &Vec<String>, thread_id: &str) -> (r: Option<usize>)
    ensures
        match r {
            Some(i) => rollout_index(texts(names@), thread_id@, 0) == Some(i as int),
            None => rollout_index(texts(names@), thread_id@, 0) is None,
        },
{
    let mut i: usize = 0;
    while i < names.len()
        invariant
            i <= names@.len(),
            rollout_index(texts(names@), thread_id@, 0) == rollout_index(
                texts(names@),
                thread_id@,
                i as int,
            ),
        decreases names@.len() - i,
    {
        if is_rollout(names[i].as_str(), thread_id) {
            return Some(i);
        }
        i += 1;
    }
    None
}

/// Which file is imported for a conversation: none for what is no identifier, else the
/// one among those in use, else the one among those put away. The result says which list
/// it is in.
pub fn import_session(thread_id: &str, sessions: &Vec<String>, archived: &Vec<String>) -> (r: Option<
    (bool, usize),
>)
    ensures
        match r {
            Some((false, i)) => uuid_text(thread_id@) && rollout_index(
                texts(sessions@),
                thread_id@,
                0,
            ) == Some(i as int),
            Some((true, i)) => uuid_text(thread_id@) && rollout_index(
                texts(sessions@),
                thread_id@,
                0,
            ) is None && rollout_index(texts(archived@), thread_id@, 0) == Some(i as int),
            None => !uuid_text(thread_id@) || (rollout_index(texts(sessions@), thread_id@, 0)
                is None && rollout_index(texts(archived@), thread_id@, 0) is None),
        },
{
    if !is_uuid(thread_id) {
        return None;
    }
    if let Some(i) = find_rollout(sessions, thread_id) {
        return Some((false, i));
    }
    match find_rollout(archived, thread_id) {
        Some(i) => Some((true, i)),
        None => None,
    }
}

/// What sharing a name asks for, given what stands in its place.
#[derive(Debug, Clone, Copy, PartialEq, Eq, Structural)]
pub enum LinkAction {
    /// It is shared already.
    Keep,
    /// Nothing stands there.
    Create,
}

/// What is said where something else stands in the place of a shared name.
pub open spec fn refusal(target: Seq<char>) -> Seq<char> {
    "refusing to replace `"@ + target
        + "` while preparing isolated Codex state; configure an explicit CODEX_HOME to manage your own state directory"@
}

/// How a name is shared. `existing` is what a link in its place refers to, and `occupied`
/// says whether anything stands there. Nothing is ever replaced.
pub open spec fn link_action(
    source: Seq<char>,
    target: Seq<char>,
    existing: Option<Seq<char>>,
    occupied: bool,
) -> Result<LinkAction, Seq<char>> {
    if existing == Some(source) {
        Ok(LinkAction::Keep)
    } else if occupied {
        Err(refusal(target))
    } else {
        Ok(LinkAction::Create)
    }
}

/// Decides how a name is shared.
pub fn link_shared(source: &str, target: &str, existing: Option<&str>, occupied: bool) -> (r: Result<
    LinkAction,
    Failure,
>)
    ensures
        match link_action(source@, target@, str_option(existing), occupied) {
            Ok(action) => r == Ok::<_, Failure>(action),
            Err(message) => failed(r, message),
        },
{
    if let Some(found) = existing {
        if equal(found, source) {
            return Ok(LinkAction::Keep);
        }
    }
    if occupied {
        return fail(
            cat3(
                "refusing to replace `",
                target,
                "` while preparing isolated Codex state; configure an explicit CODEX_HOME to manage your own state directory",
            ),
        );
    }
    Ok(LinkAction::Create)
}

/// Something that stands in the state directory, and what it refers to if it is a link.
#[derive(Debug, Clone)]
pub struct Place {
    pub name: String,
    pub link: Option<String>,
}

pub struct PlaceView {
    pub name: Seq<char>,
    pub link: Option<Seq<char>>,
}

impl View for Place {
    type V = PlaceView;

    open spec fn view(&self) -> PlaceView {
        PlaceView { name: self.name@, link: text_option(self.link) }
    }
}

/// Where a name stands among some places, from `from` on.
pub open spec fn place_index(places: Seq<PlaceView>, name: Seq<char>, from: int) -> Option<int>
    decreases places.len() - from,
{
    if from < 0 || from >= places.len() {
        None
    } else if places[from].name == name {
        Some(from)
    } else {
        place_index(places, name, from + 1)
    }
}

/// How a name is shared in a directory that holds `places`.
pub open spec fn place_action(h: HomeView, name: Seq<char>, places: Seq<PlaceView>) -> Result<
    LinkAction,
    Seq<char>,
> {
    let at = place_index(places, name, 0);
    link_action(
        joined_path(h.source, name),
        joined_path(h.path, name),
        match at {
            Some(i) => places[i].link,
            None => None,
        },
        at is Some,
    )
}

/// The link that shares a name.
pub open spec fn shared_place(h: HomeView, name: Seq<char>) -> PlaceView {
    PlaceView { name, link: Some(joined_path(h.source, name)) }
}

/// What a directory holds after some names were shared in it, one after the other, and why
/// the first that could not be was refused.
pub open spec fn prepared(h: HomeView, names: Seq<Seq<char>>, places: Seq<PlaceView>) -> (
    Seq<PlaceView>,
    Option<Seq<char>>,
)
    decreases names.len(),
{
    if names.len() == 0 {
        (places, None)
    } else {
        let before = prepared(h, names.drop_last(), places);
        if before.1 is Some {
            before
        } else {
            match place_action(h, names.last(), before.0) {
                Ok(LinkAction::Keep) => before,
                Ok(LinkAction::Create) => (before.0.push(shared_place(h, names.last())), None),
                Err(message) => (before.0, Some(message)),
            }
        }
    }
}

/// The links that share some names.
pub open spec fn shared_places(h: HomeView, names: Seq<Seq<char>>) -> Seq<PlaceView> {
    names.map_values(|name: Seq<char>| shared_place(h, name))
}

fn find_place(places: &Vec<Place>, name: &str) -> (r: Option<usize>)
    ensures
        match r {
            Some(i) => i < places@.len() && place_index(seen_all(places@), name@, 0) == Some(
                i as int,
            ),
            None => place_index(seen_all(places@), name@, 0) is None,
        },
{
    let mut i: usize = 0;
    while i < places.len()
        invariant
            i <= places@.len(),
            place_index(seen_all(places@), name@, 0) == place_index(
                seen_all(places@),
                name@,
                i as int,
            ),
        decreases places@.len() - i,
    {
        assert(seen_all(places@)[i as int] == places@[i as int]@);
        if equal(places[i].name.as_str(), name) {
            return Some(i);
        }
        i += 1;
    }
    None
}

impl IsolatedCodexHome {
    /// Plans how the state directory, which holds `places`, is prepared from the other one,
    /// which holds `entries`: the names to link, in order, and why the preparation ends
    /// after them, if it does not succeed.
    pub fn prepare(&self, entries: &Vec<String>, places: &Vec<Place>) -> (r: (
        Vec<String>,
        Option<Failure>,
    ))
        ensures
            ({
                let done = prepared(self@, linked(texts(entries@)), seen_all(places@));
                &&& done.0 == seen_all(places@) + shared_places(self@, texts(r.0@))
                &&& done.1 == match r.1 {
                    Some(failure) => Some(failure.message@),
                    None => None,
                }
            }),
    {
        let names = self.shared(entries);
        let ghost all = texts(names@);
        let ghost there = seen_all(places@);
        let mut made: Vec<String> = Vec::new();
        let mut i: usize = 0;
        assert(all.take(0) =~= Seq::empty());
        assert(there + shared_places(self@, texts(made@)) =~= there);
        while i < names.len()
            invariant
                i <= names@.len(),
                all == texts(names@),
                all == linked(texts(entries@)),
                there == seen_all(places@),
                prepared(self@, all.take(i as int), there) == (
                    there + shared_places(self@, texts(made@)),
                    None::<Seq<char>>,
                ),
            decreases names@.len() - i,
        {
            let name = names[i].as_str();
            let source = join_path(self.source.as_str(), name);
            let target = join_path(self.path.as_str(), name);
            let ghost before = there + shared_places(self@, texts(made@));
            proof {
                let upto = all.take(i + 1);
                assert(upto.drop_last() =~= all.take(i as int));
                assert(upto.last() == all[i as int]);
                lemma_index_added(there, shared_places(self@, texts(made@)), name@, 0);
                lemma_shared_index(self@, texts(made@), name@, 0);
            }
            let known = find_place(places, name);
            let (existing, occupied): (Option<&str>, bool) = match known {
                Some(k) => {
                    assert(before[k as int] == places@[k as int]@);
                    (
                        match &places[k].link {
                            Some(link) => Some(link.as_str()),
                            None => None,
                        },
                        true,
                    )
                },
                None => if holds(&made, name) {
                    (Some(source.as_str()), true)
                } else {
                    (None, false)
                },
            };
            match link_shared(source.as_str(), target.as_str(), existing, occupied) {
                Ok(LinkAction::Keep) => {},
                Ok(LinkAction::Create) => {
                    let ghost was = texts(made@);
                    push_text(&mut made, name);
                    assert(there + shared_places(self@, texts(made@)) =~= before.push(
                        shared_place(self@, name@),
                    ));
                },
                Err(e) => {
                    proof {
                        lemma_refused(self@, all, there, i + 1);
                        assert(all.take(i + 1).last() == name@);
                    }
                    return (made, Some(e));
                },
            }
            i += 1;
        }
        assert(all.take(i as int) =~= all);
        (made, None)
    }
}

/// Where a name stands among places that others were added to.
proof fn lemma_index_added(a: Seq<PlaceView>, b: Seq<PlaceView>, name: Seq<char>, from: int)
    requires
        0 <= from <= a.len(),
    ensures
        place_index(a + b, name, from) == match place_index(a, name, from) {
            Some(i) => Some(i),
            None => match place_index(b, name, 0) {
                Some(i) => Some(a.len() + i),
                None => None,
            },
        },
    decreases a.len() - from,
{
    if from < a.len() {
        assert((a + b)[from] == a[from]);
        lemma_index_added(a, b, name, from + 1);
    } else {
        lemma_index_shifted(a, b, name, 0);
    }
}

proof fn lemma_index_shifted(a: Seq<PlaceView>, b: Seq<PlaceView>, name: Seq<char>, from: int)
    requires
        0 <= from <= b.len(),
    ensures
        place_index(a + b, name, a.len() + from) == match place_index(b, name, from) {
            Some(i) => Some(a.len() + i),
            None => None,
        },
    decreases b.len() - from,
{
    if from < b.len() {
        assert((a + b)[a.len() + from] == b[from]);
        lemma_index_shifted(a, b, name, from + 1);
    }
}

proof fn lemma_index_bounds(places: Seq<PlaceView>, name: Seq<char>, from: int)
    requires
        0 <= from,
    ensures
        match place_index(places, name, from) {
            Some(i) => from <= i < places.len() && places[i].name == name,
            None => forall|i: int| from <= i < places.len() ==> (#[trigger] places[i]).name != name,
        },
    decreases places.len() - from,
{
    if from < places.len() {
        lemma_index_bounds(places, name, from + 1);
    }
}

proof fn lemma_shared_index(h: HomeView, made: Seq<Seq<char>>, name: Seq<char>, from: int)
    requires
        0 <= from,
    ensures
        match place_index(shared_places(h, made), name, from) {
            Some(i) => from <= i < made.len() && made[i] == name && made.contains(name),
            None => forall|i: int| from <= i < made.len() ==> #[trigger] made[i] != name,
        },
{
    lemma_index_bounds(shared_places(h, made), name, from);
    match place_index(shared_places(h, made), name, from) {
        Some(i) => {
            assert(shared_places(h, made)[i].name == made[i]);
        },
        None => {
            assert forall|i: int| from <= i < made.len() implies #[trigger] made[i] != name by {
                assert(shared_places(h, made)[i].name == made[i]);
            }
        },
    }
}

/// Nothing is done after a name was refused.
proof fn lemma_refused(h: HomeView, names: Seq<Seq<char>>, places: Seq<PlaceView>, n: int)
    requires
        0 <= n <= names.len(),
        prepared(h, names.take(n), places).1 is Some,
    ensures
        prepared(h, names, places) == prepared(h, names.take(n), places),
    decreases names.len(),
{
    if n < names.len() {
        assert(names.drop_last().take(n) =~= names.take(n));
        lemma_refused(h, names.drop_last(), places, n);
    } else {
        assert(names.take(n) =~= names);
    }
}

/// Preparing a directory only adds to it: what stands there stays as it is, and stays first.
pub proof fn law_preparation_replaces_nothing(
    h: HomeView,
    names: Seq<Seq<char>>,
    places: Seq<PlaceView>,
)
    ensures
        places.is_prefix_of(prepared(h, names, places).0),
    decreases names.len(),
{
    if names.len() > 0 {
        law_preparation_replaces_nothing(h, names.drop_last(), places);
        let before = prepared(h, names.drop_last(), places).0;
        let after = prepared(h, names, places).0;
        assert(before.is_prefix_of(after));
        assert(places =~= after.subrange(0, places.len() as int));
    }
}

/// A directory that was prepared is prepared again without a change and without a refusal.
pub proof fn law_a_second_preparation_changes_nothing(
    h: HomeView,
    names: Seq<Seq<char>>,
    places: Seq<PlaceView>,
)
    requires
        prepared(h, names, places).1 is None,
    ensures
        prepared(h, names, prepared(h, names, places).0) == (
            prepared(h, names, places).0,
            None::<Seq<char>>,
        ),
{
    lemma_prepared_again(h, names, places, names.len() as int);
    assert(names.take(names.len() as int) =~= names);
}

proof fn lemma_prepared_again(
    h: HomeView,
    names: Seq<Seq<char>>,
    places: Seq<PlaceView>,
    n: int,
)
    requires
        0 <= n <= names.len(),
        prepared(h, names, places).1 is None,
    ensures
        prepared(h, names.take(n), prepared(h, names, places).0) == (
            prepared(h, names, places).0,
            None::<Seq<char>>,
        ),
    decreases n,
{
    let q = prepared(h, names, places).0;
    if n > 0 {
        let upto = names.take(n);
        assert(upto.drop_last() =~= names.take(n - 1));
        lemma_prepared_again(h, names, places, n - 1);
        lemma_stays_shared(h, names, places, n - 1);
        assert(upto.last() == names[n - 1]);
    }
}

/// A name that was shared is found so.
proof fn lemma_stays_shared(h: HomeView, names: Seq<Seq<char>>, places: Seq<PlaceView>, k: int)
    requires
        0 <= k < names.len(),
        prepared(h, names, places).1 is None,
    ensures
        place_action(h, names[k], prepared(h, names, places).0) == Ok::<_, Seq<char>>(
            LinkAction::Keep,
        ),
    decreases names.len(),
{
    let front = names.drop_last();
    let before = prepared(h, front, places);
    let name = names[k];
    if k < names.len() - 1 {
        lemma_stays_shared(h, front, places, k);
        assert(front[k] == name);
    }
    lemma_index_bounds(before.0, name, 0);
    let added = seq![shared_place(h, names.last())];
    lemma_index_added(before.0, added, name, 0);
    assert(before.0.push(shared_place(h, names.last())) =~= before.0 + added);
    lemma_index_bounds(added, name, 0);
    assert(added[0].name == names.last());
}

/// What stands in the place of a shared name, and is no link to what is shared, has the
/// preparation refused.
pub proof fn law_what_is_in_the_way_is_refused(
    h: HomeView,
    names: Seq<Seq<char>>,
    places: Seq<PlaceView>,
    name: Seq<char>,
    i: int,
)
    requires
        names.contains(name),
        place_index(places, name, 0) == Some(i),
        places[i].link != Some(joined_path(h.source, name)),
    ensures
        prepared(h, names, places).1 is Some,
{
    if prepared(h, names, places).1 is None {
        let k = choose|k: int| 0 <= k < names.len() && names[k] == name;
        let q = prepared(h, names, places).0;
        lemma_stays_shared(h, names, places, k);
        law_preparation_replaces_nothing(h, names, places);
        let rest = q.subrange(places.len() as int, q.len() as int);
        assert(q =~= places + rest);
        lemma_index_added(places, rest, name, 0);
        lemma_index_bounds(places, name, 0);
        assert(q[i] == places[i]);
    }
}

/// The configuration and the credentials are always shared. The other shared names are where
/// they are there, and so is every named profile.
pub proof fn law_what_is_shared(entries: Seq<Seq<char>>, name: Seq<char>)
    ensures
        linked(entries).contains("config.toml"@),
        linked(entries).contains("auth.json"@),
        entries.contains(name) && (name == "AGENTS.md"@ || name == "AGENTS.override.md"@ || name
            == "requirements.toml"@ || name == "skills"@ || name == "plugins"@ || name == "rules"@
            || name == "agents"@ || name == "hooks.json"@) ==> linked(entries).contains(name),
        entries.contains(name) && ends(name, ".config.toml"@) ==> linked(entries).contains(name),
{
    let keep = |n: Seq<char>| n == "config.toml"@ || n == "auth.json"@ || entries.contains(n);
    let profile = |n: Seq<char>| ends(n, ".config.toml"@);
    let names = shared_names();
    let a = names.filter(keep);
    let b = entries.filter(profile);
    assert(names[0] == "config.toml"@ && names[1] == "auth.json"@ && names[2] == "AGENTS.md"@);
    assert(names[3] == "AGENTS.override.md"@ && names[4] == "requirements.toml"@);
    assert(names[5] == "skills"@ && names[6] == "plugins"@ && names[7] == "rules"@);
    assert(names[8] == "agents"@ && names[9] == "hooks.json"@);
    crate::agenda::lemma_filter_member(names, keep, "config.toml"@);
    crate::agenda::lemma_filter_member(names, keep, "auth.json"@);
    crate::agenda::lemma_filter_member(names, keep, name);
    crate::agenda::lemma_filter_member(entries, profile, name);
    assert forall|x: Seq<char>| a.contains(x) || b.contains(x) implies (a + b).contains(x) by {
        if a.contains(x) {
            let i = choose|i: int| 0 <= i < a.len() && a[i] == x;
            assert((a + b)[i] == x);
        } else {
            let i = choose|i: int| 0 <= i < b.len() && b[i] == x;
            assert((a + b)[a.len() + i] == x);
        }
    }
}

/// The file of a conversation is named for it, plain or compressed, and the first such file
/// is the one that is found.
pub proof fn law_conversations_are_found_by_their_file(
    names: Seq<Seq<char>>,
    middle: Seq<char>,
    thread_id: Seq<char>,
    at: int,
)
    requires
        0 <= at < names.len(),
        forall|i: int| 0 <= i < at ==> !rollout(#[trigger] names[i], thread_id),
        names[at] == "rollout-"@ + middle + ("-"@ + thread_id + ".jsonl"@) || names[at]
            == "rollout-"@ + middle + ("-"@ + thread_id + ".jsonl.zst"@),
    ensures
        rollout_index(names, thread_id, 0) == Some(at),
{
    let head = "rollout-"@;
    let plain = "-"@ + thread_id + ".jsonl"@;
    let packed = "-"@ + thread_id + ".jsonl.zst"@;
    let n = names[at];
    assert(n.subrange(0, head.len() as int) =~= head);
    if n == head + middle + plain {
        assert(n.subrange(n.len() - plain.len(), n.len() as int) =~= plain);
    } else {
        assert(n.subrange(n.len() - packed.len(), n.len() as int) =~= packed);
    }
    lemma_rollout_at(names, thread_id, 0, at);
}

proof fn lemma_rollout_at(names: Seq<Seq<char>>, thread_id: Seq<char>, from: int, at: int)
    requires
        0 <= from <= at < names.len(),
        forall|i: int| from <= i < at ==> !rollout(#[trigger] names[i], thread_id),
        rollout(names[at], thread_id),
    ensures
        rollout_index(names, thread_id, from) == Some(at),
    decreases at - from,
{
    if from < at {
        assert(!rollout(names[from], thread_id));
        lemma_rollout_at(names, thread_id, from + 1, at);
    }
}

/// A name is shared by a link to the other directory: it is made where nothing stands, kept
/// where it is there, and anything else in its place is left alone.
pub proof fn law_links_replace_nothing(
    source: Seq<char>,
    target: Seq<char>,
    existing: Option<Seq<char>>,
    occupied: bool,
)
    ensures
        link_action(source, target, existing, occupied) == Ok::<_, Seq<char>>(LinkAction::Keep)
            <==> existing == Some(source),
        link_action(source, target, existing, occupied) == Ok::<_, Seq<char>>(LinkAction::Create)
            <==> existing != Some(source) && !occupied,
        link_action(source, target, existing, occupied) is Err <==> existing != Some(source)
            && occupied,
{
}

} // verus!
