//! The server of the second harness: what it is asked, and how its replies are told from
//! the events between them.
use crate::codex::{is_text, no_permissions, permissions, thread_members, CodexLauncher};
use crate::failure::{fail_with, failed, outcome, Failure};
use crate::json::{
    as_signed, as_text, as_unsigned, compact, encode_json, encoded_json, get_in,
    law_compact_documents_are_one_line, lossless, member, member_of, member_trees, number_json,
    one_line, push_member, signed_in, text_in, text_json, unsigned_in, Json, JsonTree,
};
use crate::numeral::decimal;
use crate::text::{cat2, cat3, cat4, equal, holds, push_text, seen, str_option, texts};
use crate::codex::text_input;
use vstd::prelude::*;
use vstd::string::*;

verus! {

/// How long a reply is waited for, in milliseconds.
pub const REQUEST_TIMEOUT: u64 = 30_000;

/// How long a compaction is waited for.
pub const COMPACTION_TIMEOUT: u64 = 120_000;

/// A request that was answered with an error.
#[derive(Debug, PartialEq, Eq)]
pub struct CodexRequestError {
    pub method: String,
    pub error: Json,
}

/// Whether an error says that a conversation has no history to resume.
pub open spec fn thread_missing(method: Seq<char>, error: Json, thread: Seq<char>) -> bool {
    method == "thread/resume"@ && signed_in(member(error, "code"@)) == Some(-32600i64) && text_in(
        member(error, "message"@),
    ) == Some("no rollout found for thread id "@ + thread)
}

/// What an error is shown as.
pub open spec fn request_failure(method: Seq<char>, error: JsonTree) -> Seq<char> {
    "Codex App Server `"@ + method + "` failed: "@ + encoded_json(error)
}

impl CodexRequestError {
    pub fn is_missing_thread(&self, thread_id: &str) -> (r: bool)
        ensures
            r == thread_missing(self.method@, self.error, thread_id@),
    {
        let message = cat2("no rollout found for thread id ", thread_id);
        let code = match as_signed(self.error.get("code")) {
            Some(code) => code == -32600,
            None => false,
        };
        equal(self.method.as_str(), "thread/resume") && code && is_text(
            self.error.get("message"),
            message.as_str(),
        )
    }

    pub fn message(&self) -> (r: String)
        ensures
            r@ == request_failure(self.method@, self.error@),
    {
        let error = encode_json(&self.error);
        cat4("Codex App Server `", self.method.as_str(), "` failed: ", error.as_str())
    }
}

/// A request: its number, what it asks for and with what.
pub open spec fn request_tree(id: u64, method: Seq<char>, params: JsonTree) -> JsonTree {
    JsonTree::Object(
        seq![
            ("id"@, JsonTree::Number(decimal(id as nat))),
            ("method"@, JsonTree::Text(method)),
            ("params"@, params),
        ],
    )
}

/// The line of a request.
pub fn request_line(id: u64, method: &str, params: Json) -> (r: String)
    ensures
        r@ == encoded_json(request_tree(id, method@, params@)) + "\n"@,
        lossless(request_tree(id, method@, params@), 100) ==> r@ == compact(
            request_tree(id, method@, params@),
        ) + "\n"@,
{
    let ghost given = params@;
    let mut members: Vec<(String, Json)> = Vec::new();
    push_member(&mut members, "id", number_json(id));
    push_member(&mut members, "method", text_json(method));
    push_member(&mut members, "params", params);
    assert(member_trees(members@) =~= request_tree(id, method@, given)->Object_0);
    let line = encode_json(&Json::Object(members));
    cat2(line.as_str(), "\n")
}

/// A request takes one line, whatever its method and its texts hold: the server reads
/// one message for one line.
pub proof fn law_a_request_is_one_line(id: u64, method: Seq<char>, params: JsonTree)
    requires
        lossless(params, 99),
    ensures
        lossless(request_tree(id, method, params), 100),
        one_line(compact(request_tree(id, method, params))),
{
    reveal_strlit("id");
    reveal_strlit("method");
    reveal_strlit("params");
    let tree = request_tree(id, method, params);
    let z = tree->Object_0;
    assert(z[0].1 == JsonTree::Number(decimal(id as nat)));
    assert forall|i: int| 0 <= i < z.len() implies lossless((#[trigger] z[i]).1, 99) by {
        assert(i == 0 || i == 1 || i == 2);
    }
    law_compact_documents_are_one_line(tree, 100);
}

/// The line of a message that is not answered.
pub fn notification_line(method: &str, params: Json) -> (r: String)
    ensures
        r@ == encoded_json(
            JsonTree::Object(seq![("method"@, JsonTree::Text(method@)), ("params"@, params@)]),
        ) + "\n"@,
{
    let ghost given = params@;
    let mut members: Vec<(String, Json)> = Vec::new();
    push_member(&mut members, "method", text_json(method));
    push_member(&mut members, "params", params);
    assert(member_trees(members@) =~= seq![
        ("method"@, JsonTree::Text(method@)),
        ("params"@, given),
    ]);
    let line = encode_json(&Json::Object(members));
    cat2(line.as_str(), "\n")
}

/// A message of the server, as a request that waits for its reply sees it.
#[derive(Debug)]
pub enum Reply {
    /// The reply, with what it gives.
    Result(Json),
    /// The reply, with an error.
    Error(CodexRequestError),
    /// Something else, which is kept for later.
    Deferred(Json),
}

/// The result of a reply, taken out of it: the first member `key`, if there is one.
fn take_member(message: Json, key: &str) -> (r: Option<Json>)
    ensures
        r == member(message, key@),
{
    match message {
        Json::Object(members) => {
            let mut rest = members;
            let ghost all = members@;
            let total: usize = rest.len();
            let mut n: usize = 0;
            assert(all.skip(0) =~= all);
            while rest.len() > 0
                invariant
                    total == all.len(),
                    n + rest@.len() == all.len(),
                    rest@ == all.skip(n as int),
                    message == Json::Object(members),
                    all == members@,
                    crate::json::member_index(all, key@, 0) == crate::json::member_index(
                        all,
                        key@,
                        n as int,
                    ),
                decreases rest@.len(),
            {
                let (name, value) = rest.remove(0);
                assert((name, value) == all[n as int]);
                assert(rest@ =~= all.skip(n + 1));
                if equal(name.as_str(), key) {
                    return Some(value);
                }
                n += 1;
            }
            None
        },
        _ => None,
    }
}

/// Sorts a message of the server by whether it answers the request `id`.
pub fn sort_message(message: Json, id: u64, method: &str) -> (r: Reply)
    ensures
        if unsigned_in(member(message, "id"@)) == Some(id) {
            match member(message, "error"@) {
                Some(error) => r matches Reply::Error(e) && e.method@ == method@ && e.error
                    == error,
                None => r matches Reply::Result(value) && value == match member(
                    message,
                    "result"@,
                ) {
                    Some(result) => result,
                    None => Json::Null,
                },
            }
        } else {
            r == Reply::Deferred(message)
        },
{
    let answers = match as_unsigned(message.get("id")) {
        Some(n) => n == id,
        None => false,
    };
    if !answers {
        return Reply::Deferred(message);
    }
    if message.get("error").is_some() {
        return match take_member(message, "error") {
            Some(error) => Reply::Error(CodexRequestError { method: method.to_owned(), error }),
            None => Reply::Result(Json::Null),
        };
    }
    match take_member(message, "result") {
        Some(result) => Reply::Result(result),
        None => Reply::Result(Json::Null),
    }
}

/// What the server is first asked.
pub open spec fn initialize_tree(version: Seq<char>) -> JsonTree {
    JsonTree::Object(
        seq![
            (
                "clientInfo"@,
                JsonTree::Object(
                    seq![
                        ("name"@, JsonTree::Text("opsx-build"@)),
                        ("title"@, JsonTree::Text("opsx-build"@)),
                        ("version"@, JsonTree::Text(version)),
                    ],
                ),
            ),
            (
                "capabilities"@,
                JsonTree::Object(seq![("experimentalApi"@, JsonTree::Bool(true))]),
            ),
        ],
    )
}

pub fn initialize_params(version: &str) -> (r: Json)
    ensures
        r@ == initialize_tree(version@),
{
    let mut client: Vec<(String, Json)> = Vec::new();
    push_member(&mut client, "name", text_json("opsx-build"));
    push_member(&mut client, "title", text_json("opsx-build"));
    push_member(&mut client, "version", text_json(version));
    assert(member_trees(client@) =~= seq![
        ("name"@, JsonTree::Text("opsx-build"@)),
        ("title"@, JsonTree::Text("opsx-build"@)),
        ("version"@, JsonTree::Text(version@)),
    ]);
    let mut capabilities: Vec<(String, Json)> = Vec::new();
    push_member(&mut capabilities, "experimentalApi", Json::Bool(true));
    assert(member_trees(capabilities@) =~= seq![("experimentalApi"@, JsonTree::Bool(true))]);
    let mut members: Vec<(String, Json)> = Vec::new();
    push_member(&mut members, "clientInfo", Json::Object(client));
    push_member(&mut members, "capabilities", Json::Object(capabilities));
    assert(member_trees(members@) =~= initialize_tree(version@)->Object_0);
    Json::Object(members)
}

/// What a conversation is started with.
pub fn start_thread_params(
    launcher: &CodexLauncher,
    repo: &str,
    permission_mode: &str,
    additional_roots: &Vec<String>,
    ephemeral: bool,
) -> (r: Result<Json, Failure>)
    ensures
        outcome(r) == match permissions(permission_mode@) {
            Some(p) => Ok(
                JsonTree::Object(
                    thread_members(
                        launcher@,
                        repo@,
                        permission_mode@,
                        texts(additional_roots@),
                        p,
                    ).push(("ephemeral"@, JsonTree::Bool(ephemeral))),
                ),
            ),
            None => Err(no_permissions(permission_mode@, launcher@.harness)),
        },
{
    let mut params = match launcher.thread_params(repo, permission_mode, additional_roots) {
        Ok(params) => params,
        Err(e) => {
            return Err(e);
        },
    };
    push_member(&mut params, "ephemeral", Json::Bool(ephemeral));
    Ok(Json::Object(params))
}

/// What a conversation is resumed with.
pub fn resume_thread_params(
    launcher: &CodexLauncher,
    repo: &str,
    permission_mode: &str,
    thread_id: &str,
    additional_roots: &Vec<String>,
) -> (r: Result<Json, Failure>)
    ensures
        outcome(r) == match permissions(permission_mode@) {
            Some(p) => Ok(
                JsonTree::Object(
                    thread_members(
                        launcher@,
                        repo@,
                        permission_mode@,
                        texts(additional_roots@),
                        p,
                    ).push(("threadId"@, JsonTree::Text(thread_id@))).push(
                        ("excludeTurns"@, JsonTree::Bool(true)),
                    ),
                ),
            ),
            None => Err(no_permissions(permission_mode@, launcher@.harness)),
        },
{
    let mut params = match launcher.thread_params(repo, permission_mode, additional_roots) {
        Ok(params) => params,
        Err(e) => {
            return Err(e);
        },
    };
    push_member(&mut params, "threadId", text_json(thread_id));
    push_member(&mut params, "excludeTurns", Json::Bool(true));
    Ok(Json::Object(params))
}

/// The conversation that a reply gives.
pub fn started_thread(response: &Json) -> (r: Result<String, Failure>)
    ensures
        match text_in(member_of(member(*response, "thread"@), "id"@)) {
            Some(id) => r matches Ok(found) && found@ == id,
            None => failed(r, "Codex thread/start response omitted thread.id"@),
        },
{
    match as_text(get_in(response.get("thread"), "id")) {
        Some(id) => Ok(id.to_owned()),
        None => fail_with("Codex thread/start response omitted thread.id"),
    }
}

/// The turn that a reply gives.
pub fn started_turn(response: &Json) -> (r: Result<String, Failure>)
    ensures
        match text_in(member_of(member(*response, "turn"@), "id"@)) {
            Some(id) => r matches Ok(found) && found@ == id,
            None => failed(r, "Codex turn/start response omitted turn.id"@),
        },
{
    match as_text(get_in(response.get("turn"), "id")) {
        Some(id) => Ok(id.to_owned()),
        None => fail_with("Codex turn/start response omitted turn.id"),
    }
}

/// The name that a new conversation is given: none where it is not kept.
pub fn thread_name<'a>(name: Option<&'a str>, ephemeral: bool) -> (r: Option<&'a str>)
    ensures
        r == if ephemeral {
            None
        } else {
            name
        },
{
    if ephemeral {
        None
    } else {
        name
    }
}

/// Two texts as the members of a request.
pub open spec fn two_texts(a: Seq<char>, x: Seq<char>, b: Seq<char>, y: Seq<char>) -> JsonTree {
    JsonTree::Object(seq![(a, JsonTree::Text(x)), (b, JsonTree::Text(y))])
}

fn two_text_params(a: &str, x: &str, b: &str, y: &str) -> (r: Json)
    ensures
        r@ == two_texts(a@, x@, b@, y@),
{
    let mut members: Vec<(String, Json)> = Vec::new();
    push_member(&mut members, a, text_json(x));
    push_member(&mut members, b, text_json(y));
    assert(member_trees(members@) =~= seq![(a@, JsonTree::Text(x@)), (b@, JsonTree::Text(y@))]);
    Json::Object(members)
}

/// What a conversation is named with.
pub fn rename_thread_params(thread_id: &str, name: &str) -> (r: Json)
    ensures
        r@ == two_texts("threadId"@, thread_id@, "name"@, name@),
{
    two_text_params("threadId", thread_id, "name", name)
}

/// What a turn is interrupted with.
pub fn interrupt_turn_params(thread_id: &str, turn_id: &str) -> (r: Json)
    ensures
        r@ == two_texts("threadId"@, thread_id@, "turnId"@, turn_id@),
{
    two_text_params("threadId", thread_id, "turnId", turn_id)
}

/// What a conversation is compacted with.
pub fn compact_thread_params(thread_id: &str) -> (r: Json)
    ensures
        r@ == JsonTree::Object(seq![("threadId"@, JsonTree::Text(thread_id@))]),
{
    let mut members: Vec<(String, Json)> = Vec::new();
    push_member(&mut members, "threadId", text_json(thread_id));
    assert(member_trees(members@) =~= seq![("threadId"@, JsonTree::Text(thread_id@))]);
    Json::Object(members)
}

/// What a turn is steered with.
pub fn steer_turn_params(thread_id: &str, turn_id: &str, message: &str) -> (r: Json)
    ensures
        r@ == JsonTree::Object(
            seq![
                ("threadId"@, JsonTree::Text(thread_id@)),
                ("expectedTurnId"@, JsonTree::Text(turn_id@)),
                ("input"@, JsonTree::Array(seq![text_input(message@)])),
            ],
        ),
{
    let input = crate::codex::codex_turn_input_text(message);
    let mut members: Vec<(String, Json)> = Vec::new();
    push_member(&mut members, "threadId", text_json(thread_id));
    push_member(&mut members, "expectedTurnId", text_json(turn_id));
    push_member(&mut members, "input", input);
    assert(member_trees(members@) =~= seq![
        ("threadId"@, JsonTree::Text(thread_id@)),
        ("expectedTurnId"@, JsonTree::Text(turn_id@)),
        ("input"@, JsonTree::Array(seq![text_input(message@)])),
    ]);
    Json::Object(members)
}

/// A member that is there only where its value is.
pub open spec fn optional(key: Seq<char>, value: Option<JsonTree>) -> Seq<(Seq<char>, JsonTree)> {
    match value {
        Some(value) => seq![(key, value)],
        None => Seq::empty(),
    }
}

/// What a turn is started with.
pub fn start_turn_params(
    thread_id: &str,
    input: Json,
    output_schema: Option<Json>,
    sandbox_policy: Option<Json>,
    summary: Option<&str>,
) -> (r: Json)
    ensures
        r@ == JsonTree::Object(
            seq![("threadId"@, JsonTree::Text(thread_id@)), ("input"@, input@)] + optional(
                "outputSchema"@,
                seen(output_schema),
            ) + optional("sandboxPolicy"@, seen(sandbox_policy)) + optional(
                "summary"@,
                match str_option(summary) {
                    Some(text) => Some(JsonTree::Text(text)),
                    None => None,
                },
            ),
        ),
{
    let ghost want = seq![("threadId"@, JsonTree::Text(thread_id@)), ("input"@, input@)]
        + optional("outputSchema"@, seen(output_schema)) + optional(
        "sandboxPolicy"@,
        seen(sandbox_policy),
    ) + optional(
        "summary"@,
        match str_option(summary) {
            Some(text) => Some(JsonTree::Text(text)),
            None => None,
        },
    );
    let mut members: Vec<(String, Json)> = Vec::new();
    push_member(&mut members, "threadId", text_json(thread_id));
    push_member(&mut members, "input", input);
    if let Some(schema) = output_schema {
        push_member(&mut members, "outputSchema", schema);
    }
    if let Some(policy) = sandbox_policy {
        push_member(&mut members, "sandboxPolicy", policy);
    }
    if let Some(summary) = summary {
        push_member(&mut members, "summary", text_json(summary));
    }
    assert(member_trees(members@) =~= want);
    Json::Object(members)
}

/// Whether an event confirms that a conversation was compacted.
pub fn confirms_compaction(event: &Json, thread_id: &str) -> (r: bool)
    ensures
        r == (text_in(member(*event, "method"@)) == Some("thread/compacted"@) && text_in(
            member_of(member(*event, "params"@), "threadId"@),
        ) == Some(thread_id@)),
{
    is_text(event.get("method"), "thread/compacted") && is_text(
        get_in(event.get("params"), "threadId"),
        thread_id,
    )
}

/// The conversations that the server holds open. No identifier is there twice.
#[derive(Debug, Clone)]
pub struct ActiveThreads {
    ids: Vec<String>,
}

impl View for ActiveThreads {
    type V = Set<Seq<char>>;

    closed spec fn view(&self) -> Set<Seq<char>> {
        texts(self.ids@).to_set()
    }
}

impl ActiveThreads {
    pub fn new() -> (r: ActiveThreads)
        ensures
            r@ == Set::<Seq<char>>::empty(),
    {
        let r = ActiveThreads { ids: Vec::new() };
        assert(texts(r.ids@) =~= Seq::empty());
        assert(r@ =~= Set::empty());
        r
    }

    /// Whether a conversation has to be resumed before it is used.
    pub fn is_active(&self, thread_id: &str) -> (r: bool)
        ensures
            r == self@.contains(thread_id@),
    {
        holds(&self.ids, thread_id)
    }

    pub fn remember(&mut self, thread_id: &str)
        ensures
            final(self)@ == old(self)@.insert(thread_id@),
    {
        let ghost was = texts(self.ids@);
        if !holds(&self.ids, thread_id) {
            push_text(&mut self.ids, thread_id);
            proof {
                let now = texts(self.ids@);
                assert forall|x: Seq<char>| now.contains(x) == (was.contains(x) || x
                    == thread_id@) by {
                    if was.contains(x) {
                        let i = choose|i: int| 0 <= i < was.len() && was[i] == x;
                        assert(now[i] == x);
                    }
                    if x == thread_id@ {
                        assert(now[was.len() as int] == x);
                    }
                }
                assert(self@ =~= old(self)@.insert(thread_id@));
            }
        } else {
            assert(self@ =~= old(self)@.insert(thread_id@));
        }
    }
}

/// What is said of a server that ended, given what it wrote last.
pub fn exit_message(stderr: &str) -> (r: String)
    ensures
        r@ == if stderr@.len() == 0 {
            "Codex App Server exited unexpectedly"@
        } else {
            "Codex App Server exited unexpectedly: "@ + stderr@
        },
{
    if stderr.unicode_len() == 0 {
        "Codex App Server exited unexpectedly".to_owned()
    } else {
        cat2("Codex App Server exited unexpectedly: ", stderr)
    }
}

/// What is said where a reply does not come.
pub fn timeout_message(method: &str) -> (r: String)
    ensures
        r@ == "Codex App Server timed out waiting for `"@ + method@ + "`"@,
{
    cat3("Codex App Server timed out waiting for `", method, "`")
}

} // verus!
