//! Checkpoints of earlier formats, and how they are taken over.
use crate::backend::SessionId;
use crate::failure::{fail, fail_with, failed, Failure};
use crate::json::{
    as_items, as_text, as_unsigned, encode_json, encoded_json, items_in, member, number_json,
    parse_json, parsed_json, text_in, tree, unsigned_in, Json, JsonTree,
};
use crate::names::{Harness, HarnessView};
use crate::numeral::{decimal, decimal_text};
use crate::openspec::ChangeSnapshot;
use crate::stage::Stage;
use crate::state::{new_state, RunState, RunStateView, STATE_SCHEMA_VERSION};
use crate::text::{cat3, equal, seen, text_option};
use vstd::prelude::*;
use vstd::string::*;

verus! {

/// The low 32 bits of a number.
pub open spec fn low(n: u64) -> u32 {
    (n % 0x1_0000_0000) as u32
}

fn low_bits(n: u64) -> (r: u32)
    ensures
        r == low(n),
{
    (n % 0x1_0000_0000) as u32
}

/// The format that a checkpoint says it has.
pub open spec fn schema(value: Json) -> u32 {
    match unsigned_in(member(value, "schema_version"@)) {
        Some(n) => low(n),
        None => 0,
    }
}

pub fn schema_version(value: &Json) -> (r: u32)
    ensures
        r == schema(*value),
{
    match as_unsigned(value.get("schema_version")) {
        Some(n) => low_bits(n),
        None => 0,
    }
}

/// How a checkpoint is read.
#[derive(Debug, Clone, Copy, PartialEq, Eq, Structural)]
pub enum Format {
    /// As it is.
    Current,
    /// With its version raised.
    Four,
    /// With its version raised and no agenda.
    Three,
    /// Member by member.
    Two,
}

pub open spec fn format_of(version: u32) -> Option<Format> {
    if version == STATE_SCHEMA_VERSION {
        Some(Format::Current)
    } else if version == 4 {
        Some(Format::Four)
    } else if version == 3 {
        Some(Format::Three)
    } else if version == 2 {
        Some(Format::Two)
    } else {
        None
    }
}

/// Decides how a checkpoint of a version is read.
pub fn checkpoint_format(version: u32) -> (r: Result<Format, Failure>)
    ensures
        match format_of(version) {
            Some(format) => r == Ok::<_, Failure>(format),
            None => failed(
                r,
                "unsupported checkpoint schema "@ + decimal(version as nat)
                    + "; use `--forget` to leave repository state untouched and start over"@,
            ),
        },
{
    if version == STATE_SCHEMA_VERSION {
        Ok(Format::Current)
    } else if version == 4 {
        Ok(Format::Four)
    } else if version == 3 {
        Ok(Format::Three)
    } else if version == 2 {
        Ok(Format::Two)
    } else {
        let number = decimal_text(version as u64);
        fail(
            cat3(
                "unsupported checkpoint schema ",
                number.as_str(),
                "; use `--forget` to leave repository state untouched and start over",
            ),
        )
    }
}

/// The members of an object with one of them set: in its place, or at the end.
pub open spec fn with_member(
    members: Seq<(Seq<char>, JsonTree)>,
    name: Seq<char>,
    value: JsonTree,
) -> Seq<(Seq<char>, JsonTree)>
    decreases members.len(),
{
    if members.len() == 0 {
        seq![(name, value)]
    } else if members[0].0 == name {
        seq![(name, value)] + members.skip(1)
    } else {
        seq![members[0]] + with_member(members.skip(1), name, value)
    }
}

proof fn lemma_member_trees(members: Seq<(String, Json)>)
    ensures
        crate::json::member_trees(members).len() == members.len(),
        forall|i: int|
            0 <= i < members.len() ==> #[trigger] crate::json::member_trees(members)[i] == (
                members[i].0@,
                tree(members[i].1),
            ),
    decreases members.len(),
{
    if members.len() > 0 {
        lemma_member_trees(members.drop_last());
    }
}

proof fn lemma_with_member(
    members: Seq<(Seq<char>, JsonTree)>,
    name: Seq<char>,
    value: JsonTree,
    at: int,
)
    requires
        0 <= at <= members.len(),
        forall|i: int| 0 <= i < at ==> (#[trigger] members[i]).0 != name,
        at < members.len() ==> members[at].0 == name,
    ensures
        with_member(members, name, value) == if at < members.len() {
            members.update(at, (name, value))
        } else {
            members.push((name, value))
        },
    decreases members.len(),
{
    if members.len() == 0 {
        assert(seq![(name, value)] =~= members.push((name, value)));
    } else if at == 0 {
        assert(seq![(name, value)] + members.skip(1) =~= members.update(0, (name, value)));
    } else {
        let rest = members.skip(1);
        assert forall|i: int| 0 <= i < at - 1 implies (#[trigger] rest[i]).0 != name by {
            assert(rest[i] == members[i + 1]);
        }
        lemma_with_member(rest, name, value, at - 1);
        if at < members.len() {
            assert(seq![members[0]] + rest.update(at - 1, (name, value)) =~= members.update(
                at,
                (name, value),
            ));
        } else {
            assert(seq![members[0]] + rest.push((name, value)) =~= members.push((name, value)));
        }
    }
}

fn set_member(members: &mut Vec<(String, Json)>, name: &str, value: Json)
    ensures
        crate::json::member_trees(final(members)@) == with_member(
            crate::json::member_trees(old(members)@),
            name@,
            value@,
        ),
{
    let ghost before = members@;
    let ghost trees = crate::json::member_trees(before);
    let mut i: usize = 0;
    proof {
        lemma_member_trees(before);
    }
    while i < members.len()
        invariant_except_break
            i <= members@.len(),
        invariant
            members@ == before,
            i <= before.len(),
            trees == crate::json::member_trees(before),
            trees.len() == before.len(),
            forall|k: int| 0 <= k < before.len() ==> #[trigger] trees[k] == (
                before[k].0@,
                tree(before[k].1),
            ),
            forall|k: int| 0 <= k < i ==> (#[trigger] trees[k]).0 != name@,
        ensures
            i < before.len() ==> trees[i as int].0 == name@,
        decreases members@.len() - i,
    {
        assert(trees[i as int].0 == before[i as int].0@);
        if equal(members[i].0.as_str(), name) {
            break ;
        }
        i += 1;
    }
    proof {
        lemma_with_member(trees, name@, value@, i as int);
    }
    if i < members.len() {
        members.set(i, (name.to_owned(), value));
    } else {
        members.push((name.to_owned(), value));
    }
    proof {
        lemma_member_trees(members@);
        assert(crate::json::member_trees(members@) =~= with_member(trees, name@, value@));
    }
}

/// A checkpoint with the members that its version lacks, by view.
pub open spec fn raised(value: JsonTree, format: Format) -> JsonTree {
    match (value, format) {
        (JsonTree::Object(members), Format::Four) => JsonTree::Object(
            with_member(
                members,
                "schema_version"@,
                JsonTree::Number(decimal(STATE_SCHEMA_VERSION as nat)),
            ),
        ),
        (JsonTree::Object(members), Format::Three) => JsonTree::Object(
            with_member(
                with_member(
                    members,
                    "schema_version"@,
                    JsonTree::Number(decimal(STATE_SCHEMA_VERSION as nat)),
                ),
                "agenda"@,
                JsonTree::Null,
            ),
        ),
        _ => value,
    }
}

/// Raises a checkpoint of an earlier version that has the members of the current one.
pub fn migrate(value: Json, format: Format) -> (r: Json)
    ensures
        r@ == raised(value@, format),
{
    match (value, format) {
        (Json::Object(list), Format::Four) => {
            let mut members = list;
            set_member(&mut members, "schema_version", number_json(STATE_SCHEMA_VERSION as u64));
            Json::Object(members)
        },
        (Json::Object(list), Format::Three) => {
            let mut members = list;
            set_member(&mut members, "schema_version", number_json(STATE_SCHEMA_VERSION as u64));
            set_member(&mut members, "agenda", Json::Null);
            Json::Object(members)
        },
        (value, _) => value,
    }
}

/// The last planning session of a version two checkpoint.
pub open spec fn planning_entry(items: Seq<Json>) -> Option<Json>
    decreases items.len(),
{
    if items.len() == 0 {
        None
    } else if text_in(member(items.last(), "stage"@)) == Some("explore+propose"@) {
        Some(items.last())
    } else {
        planning_entry(items.drop_last())
    }
}

/// The session that planning goes on in.
pub open spec fn planning_id(value: Json) -> Option<Seq<char>> {
    match items_in(member(value, "sessions"@)) {
        Some(items) => match planning_entry(items) {
            Some(entry) => text_in(member(entry, "id"@)),
            None => None,
        },
        None => None,
    }
}

fn find_planning_id(value: &Json) -> (r: Option<SessionId>)
    ensures
        seen(r) == planning_id(*value),
{
    let items = match as_items(value.get("sessions")) {
        Some(items) => items,
        None => {
            return None;
        },
    };
    let ghost all = items@;
    let mut i: usize = items.len();
    assert(all.take(i as int) =~= all);
    while i > 0
        invariant
            i <= items@.len(),
            all == items@,
            items_in(member(*value, "sessions"@)) == Some(all),
            planning_entry(all) == planning_entry(all.take(i as int)),
        decreases i,
    {
        proof {
            let upto = all.take(i as int);
            assert(upto.last() == all[i - 1]);
            assert(upto.drop_last() =~= all.take(i - 1));
        }
        let entry = &items[i - 1];
        let planned = match as_text(entry.get("stage")) {
            Some(stage) => equal(stage, "explore+propose"),
            None => false,
        };
        if planned {
            return match as_text(entry.get("id")) {
                Some(id) => Some(SessionId::new(id)),
                None => None,
            };
        }
        i -= 1;
    }
    None
}

/// What the stage of a version two checkpoint stands in the way of.
pub open spec fn stage_fault(value: Json) -> Option<Seq<char>> {
    match member(value, "stage"@) {
        None => Some("old checkpoint omitted stage"@),
        Some(stage) => if text_in(Some(stage)) == Some("blocked"@) {
            Some(
                "old checkpoint is marked blocked; use `--forget` after reviewing the repository"@,
            )
        } else {
            None
        },
    }
}

/// Checks the stage of a version two checkpoint, before it is read.
pub fn check_old_stage(value: &Json) -> (r: Result<(), Failure>)
    ensures
        match stage_fault(*value) {
            None => r is Ok,
            Some(message) => failed(r, message),
        },
{
    match value.get("stage") {
        None => fail_with("old checkpoint omitted stage"),
        Some(stage) => {
            let is_blocked = match as_text(Some(stage)) {
                Some(word) => equal(word, "blocked"),
                None => false,
            };
            if is_blocked {
                fail_with(
                    "old checkpoint is marked blocked; use `--forget` after reviewing the repository",
                )
            } else {
                Ok(())
            }
        },
    }
}

/// The state that a version two checkpoint holds.
pub open spec fn old_state(
    value: Json,
    request: Seq<char>,
    stage: Stage,
    before: Seq<(Seq<char>, Seq<char>)>,
    h: HarnessView,
) -> RunStateView {
    RunStateView {
        change: text_in(member(value, "change"@)),
        stage,
        verify_retries: match unsigned_in(member(value, "verify_retries"@)) {
            Some(n) => low(n),
            None => 0,
        },
        planning_session: planning_id(value),
        planning_backend: if planning_id(value) is Some {
            Some(h.title)
        } else {
            None
        },
        pending_repair: text_in(member(value, "pending_repair"@)),
        proposal_head: text_in(member(value, "proposal_commit"@)),
        final_head: text_in(member(value, "final_commit"@)),
        ..new_state(request, before)
    }
}

fn text_member(value: &Json, name: &str) -> (r: Option<String>)
    ensures
        text_option(r) == text_in(member(*value, name@)),
{
    match as_text(value.get(name)) {
        Some(s) => Some(s.to_owned()),
        None => None,
    }
}

/// Takes over a version two checkpoint. `stage` is its stage, and `before_changes` are the
/// changes that it lists.
pub fn migrate_v2(
    value: &Json,
    stage: Stage,
    before_changes: ChangeSnapshot,
    harness: &Harness,
) -> (r: Result<RunState, Failure>)
    ensures
        match stage_fault(*value) {
            Some(message) => failed(r, message),
            None => match text_in(member(*value, "request"@)) {
                None => failed(r, "old checkpoint omitted request"@),
                Some(request) => r matches Ok(state) && state@ == old_state(
                    *value,
                    request,
                    stage,
                    before_changes@,
                    harness@,
                ),
            },
        },
{
    if let Err(e) = check_old_stage(value) {
        return Err(e);
    }
    let session = find_planning_id(value);
    let request = match text_member(value, "request") {
        Some(request) => request,
        None => {
            return fail_with("old checkpoint omitted request");
        },
    };
    let mut state = RunState::new(request, before_changes);
    state.change = text_member(value, "change");
    state.stage = stage;
    state.verify_retries = match as_unsigned(value.get("verify_retries")) {
        Some(n) => low_bits(n),
        None => 0,
    };
    if session.is_some() {
        state.planning_backend = Some(harness.title.as_str().to_owned());
    }
    state.planning_session = session;
    state.pending_repair = text_member(value, "pending_repair");
    state.proposal_head = text_member(value, "proposal_commit");
    state.final_head = text_member(value, "final_commit");
    Ok(state)
}

/// A checkpoint that was opened.
#[derive(Debug)]
pub enum Opened {
    /// The text of a checkpoint of the current format.
    Current(String),
    /// A checkpoint of the second format.
    Old(Json),
}

/// What a checkpoint is opened as.
pub open spec fn opened(value: Json) -> Result<Format, Seq<char>> {
    match format_of(schema(value)) {
        Some(format) => Ok(format),
        None => Err(
            "unsupported checkpoint schema "@ + decimal(schema(value) as nat)
                + "; use `--forget` to leave repository state untouched and start over"@,
        ),
    }
}

/// Opens a checkpoint that was read.
pub fn open_value(value: Json) -> (r: Result<Opened, Failure>)
    ensures
        match opened(value) {
            Ok(Format::Two) => r == Ok::<_, Failure>(Opened::Old(value)),
            Ok(format) => r matches Ok(Opened::Current(text)) && text@ == encoded_json(
                raised(value@, format),
            ),
            Err(message) => failed(r, message),
        },
{
    let version = schema_version(&value);
    match checkpoint_format(version) {
        Err(e) => Err(e),
        Ok(Format::Two) => Ok(Opened::Old(value)),
        Ok(format) => {
            let new = migrate(value, format);
            Ok(Opened::Current(encode_json(&new)))
        },
    }
}

/// Opens a checkpoint from its text. `path` is where it stands.
pub fn open_checkpoint(path: &str, text: &str) -> (r: Result<Opened, Failure>)
    ensures
        match parsed_json(text@) {
            None => failed(r, "invalid checkpoint `"@ + path@ + "`"@),
            Some(value) => match opened(value) {
                Ok(Format::Two) => r == Ok::<_, Failure>(Opened::Old(value)),
                Ok(format) => r matches Ok(Opened::Current(t)) && t@ == encoded_json(
                    raised(value@, format),
                ),
                Err(message) => failed(r, message),
            },
        },
{
    match parse_json(text) {
        None => fail(cat3("invalid checkpoint `", path, "`")),
        Some(value) => open_value(value),
    }
}

/// A run that takes over a checkpoint of the second format goes on in its own format.
pub proof fn law_old_checkpoints_are_raised(
    value: Json,
    request: Seq<char>,
    stage: Stage,
    before: Seq<(Seq<char>, Seq<char>)>,
    h: HarnessView,
)
    ensures
        old_state(value, request, stage, before, h).schema_version == STATE_SCHEMA_VERSION,
        old_state(value, request, stage, before, h).agenda is None,
        old_state(value, request, stage, before, h).campaign is None,
        old_state(value, request, stage, before, h).planning_session is Some <==> old_state(
            value,
            request,
            stage,
            before,
            h,
        ).planning_backend == Some(h.title),
{
}

/// Setting a member gives it its value in its own place, or at the end where it was missing,
/// and leaves every other member as it is.
pub proof fn law_setting_a_member_keeps_the_others(
    members: Seq<(Seq<char>, JsonTree)>,
    name: Seq<char>,
    value: JsonTree,
    at: int,
)
    requires
        0 <= at <= members.len(),
        forall|i: int| 0 <= i < at ==> (#[trigger] members[i]).0 != name,
        at < members.len() ==> members[at].0 == name,
    ensures
        ({
            let r = with_member(members, name, value);
            &&& r.len() == (if at < members.len() {
                members.len()
            } else {
                members.len() + 1
            })
            &&& r[at] == (name, value)
            &&& forall|i: int|
                0 <= i < members.len() && i != at ==> #[trigger] r[i] == members[i]
        }),
{
    lemma_with_member(members, name, value, at);
}

/// Checkpoints of the second to the fifth format are read, and no others.
pub proof fn law_four_formats_are_read(value: Json)
    ensures
        opened(value) is Ok <==> 2 <= schema(value) <= 5,
        schema(value) == 5 ==> opened(value) == Ok::<Format, Seq<char>>(Format::Current),
        schema(value) == 4 ==> opened(value) == Ok::<Format, Seq<char>>(Format::Four),
        schema(value) == 3 ==> opened(value) == Ok::<Format, Seq<char>>(Format::Three),
        schema(value) == 2 ==> opened(value) == Ok::<Format, Seq<char>>(Format::Two),
        unsigned_in(member(value, "schema_version"@)) matches Some(n) ==> (n < 0x1_0000_0000
            ==> schema(value) == n),
        unsigned_in(member(value, "schema_version"@)) is None ==> schema(value) == 0,
        opened(value) matches Err(e) ==> ("unsupported checkpoint schema "@ + decimal(
            schema(value) as nat,
        )).is_prefix_of(e),
{
    let head = "unsupported checkpoint schema "@ + decimal(schema(value) as nat);
    let e = head + "; use `--forget` to leave repository state untouched and start over"@;
    assert(e.subrange(0, head.len() as int) =~= head);
}

/// A checkpoint of the current format is read as it stands. One of the fourth format, with
/// its version where it belongs, is changed in that member alone, which then says the current
/// version.
pub proof fn law_only_the_version_is_raised(
    members: Seq<(Seq<char>, JsonTree)>,
    at: int,
    value: JsonTree,
)
    requires
        0 <= at < members.len(),
        members[at].0 == "schema_version"@,
        forall|i: int| 0 <= i < at ==> (#[trigger] members[i]).0 != "schema_version"@,
    ensures
        raised(value, Format::Current) == value,
        raised(value, Format::Two) == value,
        raised(JsonTree::Object(members), Format::Four) == JsonTree::Object(
            members.update(at, ("schema_version"@, JsonTree::Number(decimal(5)))),
        ),
{
    lemma_with_member(members, "schema_version"@, JsonTree::Number(decimal(5)), at);
}

/// A checkpoint of the third format gets the current version and no agenda. Its other members
/// stay as they are.
pub proof fn law_third_formats_have_no_agenda(members: Seq<(Seq<char>, JsonTree)>, at: int)
    requires
        0 <= at < members.len(),
        members[at].0 == "schema_version"@,
        forall|i: int| 0 <= i < at ==> (#[trigger] members[i]).0 != "schema_version"@,
        forall|i: int| 0 <= i < members.len() ==> (#[trigger] members[i]).0 != "agenda"@,
    ensures
        raised(JsonTree::Object(members), Format::Three) == JsonTree::Object(
            members.update(at, ("schema_version"@, JsonTree::Number(decimal(5)))).push(
                ("agenda"@, JsonTree::Null),
            ),
        ),
{
    lemma_with_member(members, "schema_version"@, JsonTree::Number(decimal(5)), at);
    let r = members.update(at, ("schema_version"@, JsonTree::Number(decimal(5))));
    reveal_strlit("schema_version");
    reveal_strlit("agenda");
    assert("schema_version"@.len() != "agenda"@.len());
    assert forall|i: int| 0 <= i < r.len() implies (#[trigger] r[i]).0 != "agenda"@ by {
        assert(members[i].0 != "agenda"@);
    }
    lemma_with_member(r, "agenda"@, JsonTree::Null, r.len() as int);
}

/// A version two checkpoint is taken over member by member: what it holds stands in the state
/// under the names of today, and everything else is as in a new run.
pub proof fn law_old_checkpoints_keep_their_members(
    value: Json,
    request: Seq<char>,
    stage: Stage,
    before: Seq<(Seq<char>, Seq<char>)>,
    h: HarnessView,
)
    ensures
        ({
            let r = old_state(value, request, stage, before, h);
            &&& r.request == request
            &&& r.stage == stage
            &&& r.before_changes == before
            &&& r.change == text_in(member(value, "change"@))
            &&& r.pending_repair == text_in(member(value, "pending_repair"@))
            &&& r.proposal_head == text_in(member(value, "proposal_commit"@))
            &&& r.final_head == text_in(member(value, "final_commit"@))
            &&& unsigned_in(member(value, "verify_retries"@)) is None ==> r.verify_retries == 0
            &&& unsigned_in(member(value, "verify_retries"@)) matches Some(n) ==> (n < 0x1_0000_0000
                ==> r.verify_retries == n)
            &&& (RunStateView {
                change: None,
                stage: Stage::Explore,
                verify_retries: 0,
                planning_session: None,
                planning_backend: None,
                pending_repair: None,
                proposal_head: None,
                final_head: None,
                ..r
            }) == new_state(request, before)
        }),
        stage_fault(value) is None <==> member(value, "stage"@) is Some && text_in(
            member(value, "stage"@),
        ) != Some("blocked"@),
{
}

/// Planning goes on in the session of the last entry that was for planning.
pub proof fn law_planning_goes_on_in_its_last_session(items: Seq<Json>, at: int)
    requires
        0 <= at < items.len(),
        text_in(member(items[at], "stage"@)) == Some("explore+propose"@),
        forall|i: int|
            at < i < items.len() ==> text_in(member(#[trigger] items[i], "stage"@)) != Some(
                "explore+propose"@,
            ),
    ensures
        planning_entry(items) == Some(items[at]),
    decreases items.len(),
{
    if at < items.len() - 1 {
        assert(text_in(member(items[items.len() - 1], "stage"@)) != Some("explore+propose"@));
        let rest = items.drop_last();
        assert forall|i: int| at < i < rest.len() implies text_in(
            member(#[trigger] rest[i], "stage"@),
        ) != Some("explore+propose"@) by {
            assert(rest[i] == items[i]);
        }
        law_planning_goes_on_in_its_last_session(rest, at);
    }
}

/// Where no entry was for planning, no session is gone on in.
pub proof fn law_no_planning_no_session(items: Seq<Json>)
    requires
        forall|i: int|
            0 <= i < items.len() ==> text_in(member(#[trigger] items[i], "stage"@)) != Some(
                "explore+propose"@,
            ),
    ensures
        planning_entry(items) is None,
    decreases items.len(),
{
    if items.len() > 0 {
        assert(text_in(member(items[items.len() - 1], "stage"@)) != Some("explore+propose"@));
        let rest = items.drop_last();
        assert forall|i: int| 0 <= i < rest.len() implies text_in(
            member(#[trigger] rest[i], "stage"@),
        ) != Some("explore+propose"@) by {
            assert(rest[i] == items[i]);
        }
        law_no_planning_no_session(rest);
    }
}

} // verus!
