//! JSON documents as plain values.
use crate::markers::{free_of, marker};
use crate::numeral::digit_char;
use crate::text::{equal, push_text, str_option, texts};
use vstd::prelude::*;
use vstd::string::*;

verus! {

/// A number: as it is written, and as an integer where it is one.
#[derive(Debug, Clone, PartialEq, Eq)]
pub struct JsonNumber {
    pub text: String,
    pub unsigned: Option<u64>,
    pub signed: Option<i64>,
}

/// A JSON value. The names of an object's members are distinct.
#[derive(Debug, PartialEq, Eq)]
pub enum Json {
    Null,
    Bool(bool),
    Number(JsonNumber),
    Text(String),
    Array(Vec<Json>),
    Object(Vec<(String, Json)>),
}

/// Where the member `key` stands, looked for from `from` on.
pub open spec fn member_index(members: Seq<(String, Json)>, key: Seq<char>, from: int) -> Option<int>
    decreases members.len() - from,
{
    if from < 0 || from >= members.len() {
        None
    } else if members[from].0@ == key {
        Some(from)
    } else {
        member_index(members, key, from + 1)
    }
}

/// The member `key` of an object.
pub open spec fn member(value: Json, key: Seq<char>) -> Option<Json> {
    match value {
        Json::Object(members) => match member_index(members@, key, 0) {
            Some(i) => Some(members@[i].1),
            None => None,
        },
        _ => None,
    }
}

/// The member `key` of what a lookup found.
pub open spec fn member_of(value: Option<Json>, key: Seq<char>) -> Option<Json> {
    match value {
        Some(v) => member(v, key),
        None => None,
    }
}

/// What a reference to a value that may be absent refers to.
pub open spec fn target(value: Option<&Json>) -> Option<Json> {
    match value {
        Some(v) => Some(*v),
        None => None,
    }
}

/// The text of a string value.
pub open spec fn text_in(value: Option<Json>) -> Option<Seq<char>> {
    match value {
        Some(Json::Text(s)) => Some(s@),
        _ => None,
    }
}

/// The truth of a boolean value.
pub open spec fn bool_in(value: Option<Json>) -> Option<bool> {
    match value {
        Some(Json::Bool(b)) => Some(b),
        _ => None,
    }
}

/// The elements of an array.
pub open spec fn items_in(value: Option<Json>) -> Option<Seq<Json>> {
    match value {
        Some(Json::Array(items)) => Some(items@),
        _ => None,
    }
}

/// An integer that is not negative.
pub open spec fn unsigned_in(value: Option<Json>) -> Option<u64> {
    match value {
        Some(Json::Number(n)) => n.unsigned,
        _ => None,
    }
}

/// An integer.
pub open spec fn signed_in(value: Option<Json>) -> Option<i64> {
    match value {
        Some(Json::Number(n)) => n.signed,
        _ => None,
    }
}

impl Json {
    /// The member `key`, where this is an object that has one.
    pub fn get<'a>(&'a self, key: &str) -> (r: Option<&'a Json>)
        ensures
            target(r) == member(*self, key@),
    {
        match self {
            Json::Object(members) => {
                let mut i: usize = 0;
                while i < members.len()
                    invariant
                        *self == Json::Object(*members),
                        i <= members@.len(),
                        member_index(members@, key@, 0) == member_index(
                            members@,
                            key@,
                            i as int,
                        ),
                    decreases members@.len() - i,
                {
                    if equal(members[i].0.as_str(), key) {
                        return Some(&members[i].1);
                    }
                    i += 1;
                }
                None
            },
            _ => None,
        }
    }
}

/// The member `key` of what a lookup found.
pub fn get_in<'a>(value: Option<&'a Json>, key: &str) -> (r: Option<&'a Json>)
    ensures
        target(r) == member_of(target(value), key@),
{
    match value {
        Some(v) => v.get(key),
        None => None,
    }
}

pub fn as_text<'a>(value: Option<&'a Json>) -> (r: Option<&'a str>)
    ensures
        crate::text::str_option(r) == text_in(target(value)),
{
    match value {
        Some(Json::Text(s)) => Some(s.as_str()),
        _ => None,
    }
}

pub fn as_bool(value: Option<&Json>) -> (r: Option<bool>)
    ensures
        r == bool_in(target(value)),
{
    match value {
        Some(Json::Bool(b)) => Some(*b),
        _ => None,
    }
}

pub fn as_items<'a>(value: Option<&'a Json>) -> (r: Option<&'a Vec<Json>>)
    ensures
        match r {
            Some(v) => items_in(target(value)) == Some(v@),
            None => items_in(target(value)) is None,
        },
{
    match value {
        Some(Json::Array(items)) => Some(items),
        _ => None,
    }
}

pub fn as_unsigned(value: Option<&Json>) -> (r: Option<u64>)
    ensures
        r == unsigned_in(target(value)),
{
    match value {
        Some(Json::Number(n)) => n.unsigned,
        _ => None,
    }
}

pub fn as_signed(value: Option<&Json>) -> (r: Option<i64>)
    ensures
        r == signed_in(target(value)),
{
    match value {
        Some(Json::Number(n)) => n.signed,
        _ => None,
    }
}

/// The texts that stand under `key` in some values; without a key, the texts among them.
pub open spec fn texts_under(items: Seq<Json>, key: Option<Seq<char>>) -> Seq<Seq<char>>
    decreases items.len(),
{
    if items.len() == 0 {
        Seq::empty()
    } else {
        let found = match key {
            Some(key) => member(items.last(), key),
            None => Some(items.last()),
        };
        match text_in(found) {
            Some(text) => texts_under(items.drop_last(), key).push(text),
            None => texts_under(items.drop_last(), key),
        }
    }
}

/// Collects the texts that stand under `key` in some values.
pub fn collect_texts(items: &Vec<Json>, key: Option<&str>) -> (r: Vec<String>)
    ensures
        texts(r@) == texts_under(items@, str_option(key)),
{
    let mut out: Vec<String> = Vec::new();
    let mut i: usize = 0;
    assert(texts(out@) =~= Seq::empty());
    assert(items@.take(0) =~= Seq::empty());
    while i < items.len()
        invariant
            i <= items@.len(),
            texts(out@) == texts_under(items@.take(i as int), str_option(key)),
        decreases items@.len() - i,
    {
        proof {
            let upto = items@.take(i + 1);
            assert(upto.drop_last() =~= items@.take(i as int));
            assert(upto.last() == items@[i as int]);
        }
        let found = match key {
            Some(key) => items[i].get(key),
            None => Some(&items[i]),
        };
        if let Some(text) = as_text(found) {
            push_text(&mut out, text);
        }
        i += 1;
    }
    assert(items@.take(i as int) =~= items@);
    out
}

/// The document that a text is, where it is a JSON document.
pub uninterp spec fn parsed_json(text: Seq<char>) -> Option<Json>;

/// `serde_json::from_str` into a `serde_json::Value`. The result is named by
/// [`parsed_json`]: the same text always reads as the same document, and a text that
/// is no JSON document gives `None`. Nothing is said here of which texts are which.
#[verifier::external_body]
pub(crate) fn parse_json(text: &str) -> (r: Option<Json>)
    ensures
        r == parsed_json(text@),
{
    serde_json::from_str::<serde_json::Value>(text).ok().map(plain_json)
}

/// `serde_json::Value`, carried between the two functions that handle one.
#[verifier::external_type_specification]
#[verifier::external_body]
pub struct ExValue(serde_json::Value);

/// A `serde_json::Value` as a [`Json`]: one variant for one variant, numbers as
/// `serde_json::Number` gives them by `to_string`, `as_u64` and `as_i64`.
#[verifier::external_body]
fn plain_json(value: serde_json::Value) -> Json {
    match value {
        serde_json::Value::Null => Json::Null,
        serde_json::Value::Bool(b) => Json::Bool(b),
        serde_json::Value::Number(n) => {
            Json::Number(
                JsonNumber { text: n.to_string(), unsigned: n.as_u64(), signed: n.as_i64() },
            )
        },
        serde_json::Value::String(s) => Json::Text(s),
        serde_json::Value::Array(v) => Json::Array(v.into_iter().map(plain_json).collect()),
        serde_json::Value::Object(m) => {
            Json::Object(m.into_iter().map(|(k, v)| (k, plain_json(v))).collect())
        },
    }
}

/// A character in a JSON string literal.
pub open spec fn escaped(c: char) -> Seq<char> {
    if c == '"' {
        seq!['\\', '"']
    } else if c == '\\' {
        seq!['\\', '\\']
    } else if c == '\n' {
        seq!['\\', 'n']
    } else if c == '\r' {
        seq!['\\', 'r']
    } else if c == '\t' {
        seq!['\\', 't']
    } else if c as u32 == 0x8 {
        seq!['\\', 'b']
    } else if c as u32 == 0xc {
        seq!['\\', 'f']
    } else if (c as u32) < 0x20 {
        seq!['\\', 'u', '0', '0', digit_char(c as int / 16), digit_char(c as int % 16)]
    } else {
        seq![c]
    }
}

/// The characters of a text in a JSON string literal.
pub open spec fn all_escaped(text: Seq<char>) -> Seq<char>
    decreases text.len(),
{
    if text.len() == 0 {
        Seq::empty()
    } else {
        all_escaped(text.drop_last()) + escaped(text.last())
    }
}

/// A text as a JSON string literal, with its quotes.
pub open spec fn json_literal(text: Seq<char>) -> Seq<char> {
    seq!['"'] + all_escaped(text) + seq!['"']
}

/// `serde_json::Value::to_string` of a string value: the text in double quotes, in which
/// quotes, backslashes and control characters are escaped, the latter by a letter where there
/// is one and by their number otherwise.
#[verifier::external_body]
pub(crate) fn quote_json(text: &str) -> (r: String)
    ensures
        r@ == json_literal(text@),
{
    serde_json::Value::from(text).to_string()
}

/// What a [`Json`] holds.
pub enum JsonTree {
    Null,
    Bool(bool),
    Number(Seq<char>),
    Text(Seq<char>),
    Array(Seq<JsonTree>),
    Object(Seq<(Seq<char>, JsonTree)>),
}

/// A document, by view.
pub open spec fn tree(value: Json) -> JsonTree
    decreases value,
{
    match value {
        Json::Null => JsonTree::Null,
        Json::Bool(b) => JsonTree::Bool(b),
        Json::Number(n) => JsonTree::Number(n.text@),
        Json::Text(s) => JsonTree::Text(s@),
        Json::Array(items) => JsonTree::Array(item_trees(items@)),
        Json::Object(members) => JsonTree::Object(member_trees(members@)),
    }
}

/// The elements of an array, by view.
pub open spec fn item_trees(items: Seq<Json>) -> Seq<JsonTree>
    decreases items,
{
    if items.len() == 0 {
        Seq::empty()
    } else {
        item_trees(items.drop_last()).push(tree(items.last()))
    }
}

/// The members of an object, by view.
pub open spec fn member_trees(members: Seq<(String, Json)>) -> Seq<(Seq<char>, JsonTree)>
    decreases members,
{
    if members.len() == 0 {
        Seq::empty()
    } else {
        member_trees(members.drop_last()).push((members.last().0@, tree(members.last().1)))
    }
}

impl View for Json {
    type V = JsonTree;

    open spec fn view(&self) -> JsonTree {
        tree(*self)
    }
}

/// Puts one more member into an object.
pub fn push_member(members: &mut Vec<(String, Json)>, name: &str, value: Json)
    ensures
        member_trees(final(members)@) == member_trees(old(members)@).push((name@, value@)),
{
    let entry = (name.to_owned(), value);
    let ghost was = members@;
    members.push(entry);
    assert(members@.drop_last() =~= was);
}

/// Puts one more element into an array.
pub fn push_item(items: &mut Vec<Json>, value: Json)
    ensures
        item_trees(final(items)@) == item_trees(old(items)@).push(value@),
{
    let ghost was = items@;
    items.push(value);
    assert(items@.drop_last() =~= was);
}

/// A text as a value.
pub fn text_json(text: &str) -> (r: Json)
    ensures
        r@ == JsonTree::Text(text@),
{
    Json::Text(text.to_owned())
}

/// A number as a value.
pub fn number_json(n: u64) -> (r: Json)
    ensures
        r@ == JsonTree::Number(crate::numeral::decimal(n as nat)),
        unsigned_in(Some(r)) == Some(n),
{
    let signed = if n <= 0x7fff_ffff_ffff_ffff {
        Some(n as i64)
    } else {
        None
    };
    Json::Number(
        JsonNumber { text: crate::numeral::decimal_text(n), unsigned: Some(n), signed },
    )
}

/// Texts as an array of the texts.
pub open spec fn text_items(list: Seq<Seq<char>>) -> Seq<JsonTree> {
    list.map_values(|t: Seq<char>| JsonTree::Text(t))
}

/// An array of texts.
pub fn texts_json(list: &Vec<String>) -> (r: Json)
    ensures
        r@ == JsonTree::Array(text_items(crate::text::texts(list@))),
{
    let mut items: Vec<Json> = Vec::new();
    let mut i: usize = 0;
    let ghost all = text_items(crate::text::texts(list@));
    assert(item_trees(items@) =~= all.take(0));
    while i < list.len()
        invariant
            i <= list@.len(),
            all == text_items(crate::text::texts(list@)),
            item_trees(items@) == all.take(i as int),
        decreases list@.len() - i,
    {
        push_item(&mut items, text_json(list[i].as_str()));
        i += 1;
        assert(item_trees(items@) =~= all.take(i as int));
    }
    assert(all.take(i as int) =~= all);
    Json::Array(items)
}

/// A document, written compactly.
pub uninterp spec fn encoded_json(value: JsonTree) -> Seq<char>;

/// A document without blanks: the elements of an array and the members of an object
/// stand one behind the other, with commas between.
pub open spec fn compact(value: JsonTree) -> Seq<char>
    decreases value,
{
    match value {
        JsonTree::Null => "null"@,
        JsonTree::Bool(b) => if b {
            "true"@
        } else {
            "false"@
        },
        JsonTree::Number(digits) => digits,
        JsonTree::Text(s) => json_literal(s),
        JsonTree::Array(items) => seq!['['] + compact_items(items) + seq![']'],
        JsonTree::Object(members) => seq!['{'] + compact_members(members) + seq!['}'],
    }
}

pub open spec fn compact_items(items: Seq<JsonTree>) -> Seq<char>
    decreases items,
{
    if items.len() == 0 {
        Seq::empty()
    } else if items.len() == 1 {
        compact(items.last())
    } else {
        compact_items(items.drop_last()) + seq![','] + compact(items.last())
    }
}

pub open spec fn compact_members(members: Seq<(Seq<char>, JsonTree)>) -> Seq<char>
    decreases members,
{
    if members.len() == 0 {
        Seq::empty()
    } else {
        let member = json_literal(members.last().0) + seq![':'] + compact(members.last().1);
        if members.len() == 1 {
            member
        } else {
            compact_members(members.drop_last()) + seq![','] + member
        }
    }
}

/// `serde_json::Value::to_string` of the document, named by [`encoded_json`]: the same
/// document is always written the same way. Beyond the name: a lossless document is
/// written as [`compact`] says.
#[verifier::external_body]
pub(crate) fn encode_json(value: &Json) -> (r: String)
    ensures
        r@ == encoded_json(value@),
        lossless(value@, 100) ==> r@ == compact(value@),
{
    wire_json(value).to_string()
}

/// A document, written over several lines.
pub uninterp spec fn pretty_json(value: JsonTree) -> Seq<char>;

/// Whether a document is the same once it was written and read: its numbers are natural,
/// its objects list their members in order, and it is not nested too deeply.
pub open spec fn lossless(value: JsonTree, depth: nat) -> bool
    decreases depth,
{
    match value {
        JsonTree::Null => true,
        JsonTree::Bool(_) => true,
        JsonTree::Text(_) => true,
        JsonTree::Number(digits) => exists|n: u64|
            digits == #[trigger] crate::numeral::decimal(n as nat),
        JsonTree::Array(items) => depth > 0 && forall|i: int|
            0 <= i < items.len() ==> lossless(#[trigger] items[i], (depth - 1) as nat),
        JsonTree::Object(members) => depth > 0 && crate::table::well_ordered(members) && forall|
            i: int,
        |
            0 <= i < members.len() ==> lossless((#[trigger] members[i]).1, (depth - 1) as nat),
    }
}

/// Whether no text in a document holds `p`.
pub open spec fn tree_free_of(value: JsonTree, p: Seq<char>, depth: nat) -> bool
    decreases depth,
{
    match value {
        JsonTree::Null => true,
        JsonTree::Bool(_) => true,
        JsonTree::Number(_) => true,
        JsonTree::Text(s) => free_of(s, p),
        JsonTree::Array(items) => depth > 0 && forall|i: int|
            0 <= i < items.len() ==> tree_free_of(#[trigger] items[i], p, (depth - 1) as nat),
        JsonTree::Object(members) => depth > 0 && forall|i: int|
            0 <= i < members.len() ==> free_of((#[trigger] members[i]).0, p) && tree_free_of(
                members[i].1,
                p,
                (depth - 1) as nat,
            ),
    }
}

/// Whether a text is written into a string literal as it is.
pub open spec fn literal(p: Seq<char>) -> bool {
    forall|i: int| 0 <= i < p.len() ==> #[trigger] p[i] != '"' && p[i] != '\\' && p[i] >= ' '
}

/// Whether the natural numbers among the members of an object are known as such.
pub open spec fn numbers_known(value: Json) -> bool {
    value matches Json::Object(members) ==> forall|i: int, n: u64|
        #![trigger members@[i], crate::numeral::decimal(n as nat)]
        0 <= i < members@.len() && (members@[i].1 matches Json::Number(number) && number.text@
            == crate::numeral::decimal(n as nat)) ==> unsigned_in(Some(members@[i].1)) == Some(n)
            && (n <= i64::MAX ==> signed_in(Some(members@[i].1)) == Some(n as i64))
}

/// Whether a lossless document is what `text` reads as.
pub open spec fn reads_back(text: Seq<char>, value: JsonTree) -> bool {
    lossless(value, 100) ==> (parsed_json(text) matches Some(read) && read@ == value
        && numbers_known(read))
}

/// Whether a marker that needs no escapes stands in `text` only where a text of the
/// document holds it.
pub open spec fn marks_kept(text: Seq<char>, value: JsonTree) -> bool {
    forall|p: Seq<char>|
        marker(p) && literal(p) && tree_free_of(value, p, 100) ==> #[trigger] free_of(text, p)
}

/// Whether a text is free of carriage returns, and no line of it begins with a backtick
/// but the first.
pub open spec fn unfenced(s: Seq<char>) -> bool {
    &&& forall|i: int| 0 <= i < s.len() ==> #[trigger] s[i] != '\r'
    &&& forall|i: int| 0 < i < s.len() && #[trigger] s[i] == '`' ==> s[i - 1] != '\n'
}

/// `serde_json::to_string_pretty` of the document, named by [`pretty_json`]. A
/// `serde_json::Value` can always be written, so the result is never the empty text that
/// stands for a failure. Beyond the name: `serde_json::from_str` reads a lossless document
/// back, and gives its natural numbers by `as_u64` and `as_i64`; what breaks a line is
/// followed by blanks or a closing bracket, and control characters are escaped; and what
/// stands between `<` and `>` stands in one of the texts, if it needs no escapes.
#[verifier::external_body]
pub(crate) fn indent_json(value: &Json) -> (r: String)
    ensures
        r@ == pretty_json(value@),
        reads_back(r@, value@),
        unfenced(r@),
        marks_kept(r@, value@),
{
    serde_json::to_string_pretty(&wire_json(value)).unwrap_or_default()
}

/// Whether a text is one line.
pub open spec fn one_line(s: Seq<char>) -> bool {
    forall|i: int| 0 <= i < s.len() ==> #[trigger] s[i] != '\n'
}

proof fn lemma_escape_is_one_line(c: char)
    ensures
        one_line(escaped(c)),
{
    let n = c as u32;
    if n < 0x20 {
        let high = c as int / 16;
        let low = c as int % 16;
        assert(0 <= high < 2 && 0 <= low < 16);
        assert(digit_char(high) as u32 >= 48);
        assert(digit_char(low) as u32 >= 48);
    }
}

proof fn lemma_literal_is_one_line(text: Seq<char>)
    ensures
        one_line(all_escaped(text)),
        one_line(json_literal(text)),
    decreases text.len(),
{
    if text.len() > 0 {
        lemma_literal_is_one_line(text.drop_last());
        lemma_escape_is_one_line(text.last());
    }
}

proof fn lemma_decimal_is_one_line(n: nat)
    ensures
        one_line(crate::numeral::decimal(n)),
    decreases n,
{
    if n >= 10 {
        lemma_decimal_is_one_line(n / 10);
    }
}

/// A lossless document is written on one line, whatever its texts hold.
pub proof fn law_compact_documents_are_one_line(value: JsonTree, depth: nat)
    requires
        lossless(value, depth),
    ensures
        one_line(compact(value)),
    decreases value,
{
    match value {
        JsonTree::Null => {
            reveal_strlit("null");
        },
        JsonTree::Bool(_) => {
            reveal_strlit("true");
            reveal_strlit("false");
        },
        JsonTree::Number(digits) => {
            let n = choose|n: u64| digits == #[trigger] crate::numeral::decimal(n as nat);
            lemma_decimal_is_one_line(n as nat);
        },
        JsonTree::Text(s) => {
            lemma_literal_is_one_line(s);
        },
        JsonTree::Array(items) => {
            lemma_items_are_one_line(items, (depth - 1) as nat);
        },
        JsonTree::Object(members) => {
            lemma_members_are_one_line(members, (depth - 1) as nat);
        },
    }
}

proof fn lemma_items_are_one_line(items: Seq<JsonTree>, depth: nat)
    requires
        forall|i: int| 0 <= i < items.len() ==> lossless(#[trigger] items[i], depth),
    ensures
        one_line(compact_items(items)),
    decreases items,
{
    if items.len() > 0 {
        lemma_items_are_one_line(items.drop_last(), depth);
        law_compact_documents_are_one_line(items.last(), depth);
    }
}

proof fn lemma_members_are_one_line(members: Seq<(Seq<char>, JsonTree)>, depth: nat)
    requires
        forall|i: int| 0 <= i < members.len() ==> lossless((#[trigger] members[i]).1, depth),
    ensures
        one_line(compact_members(members)),
    decreases members,
{
    if members.len() > 0 {
        lemma_members_are_one_line(members.drop_last(), depth);
        law_compact_documents_are_one_line(members.last().1, depth);
        lemma_literal_is_one_line(members.last().0);
    }
}

/// A [`Json`] as a `serde_json::Value`: one variant for one variant, a number read from
/// its text by the `FromStr` of `serde_json::Number`.
#[verifier::external_body]
fn wire_json(value: &Json) -> serde_json::Value {
    match value {
        Json::Null => serde_json::Value::Null,
        Json::Bool(b) => serde_json::Value::Bool(*b),
        Json::Number(n) => {
            n.text.parse().map_or(serde_json::Value::Null, serde_json::Value::Number)
        },
        Json::Text(s) => serde_json::Value::String(s.clone()),
        Json::Array(v) => serde_json::Value::Array(v.iter().map(wire_json).collect()),
        Json::Object(m) => {
            serde_json::Value::Object(m.iter().map(|(k, v)| (k.clone(), wire_json(v))).collect())
        },
    }
}

/// The member of an object is the first of its name. Where no member has the name, and in
/// anything that is no object, there is none.
pub proof fn law_members_are_found_by_name(members: Vec<(String, Json)>, key: Seq<char>, at: int)
    requires
        0 <= at <= members@.len(),
        forall|i: int| 0 <= i < at ==> (#[trigger] members@[i]).0@ != key,
        at < members@.len() ==> members@[at].0@ == key,
    ensures
        at < members@.len() ==> member(Json::Object(members), key) == Some(members@[at].1),
        at == members@.len() ==> member(Json::Object(members), key) is None,
        member(Json::Null, key) is None,
{
    lemma_member_at(members@, key, 0, at);
}

proof fn lemma_member_at(members: Seq<(String, Json)>, key: Seq<char>, from: int, at: int)
    requires
        0 <= from <= at <= members.len(),
        forall|i: int| from <= i < at ==> (#[trigger] members[i]).0@ != key,
        at < members.len() ==> members[at].0@ == key,
    ensures
        member_index(members, key, from) == (if at < members.len() {
            Some(at)
        } else {
            None
        }),
    decreases at - from,
{
    if from < at {
        assert(members[from].0@ != key);
        lemma_member_at(members, key, from + 1, at);
    }
}

/// The texts under a key are taken one by one, in order, and what has none is passed over.
pub proof fn law_texts_are_collected_in_order(items: Seq<Json>, last: Json, key: Seq<char>)
    ensures
        text_in(member(last, key)) matches Some(t) ==> texts_under(items.push(last), Some(key))
            == texts_under(items, Some(key)).push(t),
        text_in(member(last, key)) is None ==> texts_under(items.push(last), Some(key))
            == texts_under(items, Some(key)),
        text_in(Some(last)) matches Some(t) ==> texts_under(items.push(last), None) == texts_under(
            items,
            None,
        ).push(t),
        text_in(Some(last)) is None ==> texts_under(items.push(last), None) == texts_under(
            items,
            None,
        ),
        texts_under(Seq::empty(), Some(key)).len() == 0,
{
    assert(items.push(last).drop_last() =~= items);
}

} // verus!
