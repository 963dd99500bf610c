//! JSON text, through `serde_json`.
//!
//! `serde_json` reads and writes its own values. What one of those holds has the name
//! [`json_of`]; [`open`] and [`close`] take one apart and put one together, one level
//! at a time. Everything else here is proved from what those two say.
use crate::json::{
    by_key, items_json, keys_differ, lemma_by_key, lemma_items, lemma_members, members_json, Decimal,
    Json, JsonValue, Object,
};
use vstd::prelude::*;
use vstd::utf8::encode_utf8;

verus! {

/// `serde_json::Value`: what one holds is [`json_of`].
#[verifier::external_type_specification]
#[verifier::external_body]
pub struct ExValue(serde_json::Value);

/// `serde_json::Error`, carried through unread.
#[verifier::external_type_specification]
#[verifier::external_body]
pub struct ExError(serde_json::Error);

/// What a `serde_json::Value` holds.
pub uninterp spec fn json_of(value: serde_json::Value) -> Json;

/// What `serde_json::from_slice` reads from a text, if it is JSON.
pub uninterp spec fn parsed(text: Seq<u8>) -> Option<Json>;

/// What `serde_json::to_string` writes.
pub uninterp spec fn printed(json: Json) -> Seq<char>;

/// How many arrays and objects `serde_json::from_slice` takes inside one another.
pub const NESTING_LIMIT: usize = 127;

/// Nested no deeper than the number of levels, and without a number that is not an
/// integer.
pub open spec fn plain(json: Json, levels: nat) -> bool
    decreases levels,
{
    match json {
        Json::Decimal(_) => false,
        Json::Array(items) => levels > 0 && forall|i: int|
            0 <= i < items.len() ==> plain(#[trigger] items[i], (levels - 1) as nat),
        Json::Object(members) => levels > 0 && forall|key: Seq<char>| #[trigger]
            members.contains_key(key) ==> plain(members[key], (levels - 1) as nat),
        _ => true,
    }
}

/// Whatever is no array, no object and no other number than an integer is plain, and so is an
/// array or an object of such, with one level more for each that stands around them.
pub proof fn lemma_plain(
    b: bool,
    i: int,
    text: Seq<char>,
    items: Seq<Json>,
    members: Map<Seq<char>, Json>,
    levels: nat,
)
    ensures
        plain(Json::Null, levels),
        plain(Json::Bool(b), levels),
        plain(Json::Integer(i), levels),
        plain(Json::String(text), levels),
        (forall|k: int| 0 <= k < items.len() ==> plain(#[trigger] items[k], levels)) ==> plain(
            Json::Array(items),
            levels + 1,
        ),
        (forall|key: Seq<char>| #[trigger]
            members.contains_key(key) ==> plain(members[key], levels)) ==> plain(
            Json::Object(members),
            levels + 1,
        ),
{
    reveal_with_fuel(plain, 2);
}

/// One level of a `serde_json::Value`.
pub enum Node {
    Null,
    Bool(bool),
    Signed(i64),
    Unsigned(u64),
    Decimal(Decimal),
    String(String),
    Array(Vec<serde_json::Value>),
    Object(Vec<(String, serde_json::Value)>),
}

/// The key of each member with what its value holds.
pub open spec fn outside_members(members: Seq<(String, serde_json::Value)>) -> Seq<
    (Seq<char>, Json),
> {
    members.map_values(|member: (String, serde_json::Value)| (member.0@, json_of(member.1)))
}

/// What each item holds.
pub open spec fn outside_items(items: Seq<serde_json::Value>) -> Seq<Json> {
    items.map_values(|item: serde_json::Value| json_of(item))
}

impl Node {
    /// What the level holds.
    pub open spec fn json(self) -> Json {
        match self {
            Node::Null => Json::Null,
            Node::Bool(b) => Json::Bool(b),
            Node::Signed(i) => Json::Integer(i as int),
            Node::Unsigned(u) => Json::Integer(u as int),
            Node::Decimal(d) => Json::Decimal(d),
            Node::String(s) => Json::String(s@),
            Node::Array(items) => Json::Array(outside_items(items@)),
            Node::Object(members) => Json::Object(by_key(outside_members(members@))),
        }
    }
}

/// Takes a `serde_json::Value` apart, by its variants: the level means what the value
/// holds, and the keys of an object differ from one another.
#[verifier::external_body]
fn open(value: serde_json::Value) -> (node: Node)
    ensures
        node.json() == json_of(value),
        node matches Node::Object(members) ==> keys_differ(outside_members(members@)),
{
    match value {
        serde_json::Value::Null => Node::Null,
        serde_json::Value::Bool(b) => Node::Bool(b),
        serde_json::Value::Number(n) => match (n.as_u64(), n.as_i64()) {
            (Some(u), _) => Node::Unsigned(u),
            (None, Some(i)) => Node::Signed(i),
            (None, None) => Node::Decimal(Decimal { number: n }),
        },
        serde_json::Value::String(s) => Node::String(s),
        serde_json::Value::Array(items) => Node::Array(items),
        serde_json::Value::Object(members) => Node::Object(members.into_iter().collect()),
    }
}

/// Puts a `serde_json::Value` together from its variants: it holds what the level
/// means.
#[verifier::external_body]
fn close(node: Node) -> (value: serde_json::Value)
    requires
        node matches Node::Object(members) ==> keys_differ(outside_members(members@)),
    ensures
        json_of(value) == node.json(),
{
    match node {
        Node::Null => serde_json::Value::Null,
        Node::Bool(b) => serde_json::Value::Bool(b),
        Node::Signed(i) => serde_json::Value::from(i),
        Node::Unsigned(u) => serde_json::Value::from(u),
        Node::Decimal(d) => serde_json::Value::Number(d.number),
        Node::String(s) => serde_json::Value::String(s),
        Node::Array(items) => serde_json::Value::Array(items),
        Node::Object(members) => serde_json::Value::Object(members.into_iter().collect()),
    }
}

/// `serde_json::from_slice`, into a `serde_json::Value`: what it reads is a function of
/// the bytes, and it fails where they are not JSON.
#[verifier::external_body]
fn from_slice(text: &[u8]) -> (value: Result<serde_json::Value, serde_json::Error>)
    ensures
        match value {
            Ok(v) => parsed(text@) == Some(json_of(v)),
            Err(_) => parsed(text@) is None,
        },
{
    serde_json::from_slice(text)
}

/// `serde_json::to_string`, of a `serde_json::Value`: it does not fail, what it writes is
/// a function of what the value holds, and reading that gives the same back where the
/// value is nested no deeper than the reader takes and holds integers only.
///
/// Of other numbers nothing is claimed: the reader may round one differently from
/// the number that was written.
#[verifier::external_body]
fn to_string(value: &serde_json::Value) -> (text: Result<String, serde_json::Error>)
    ensures
        match text {
            Ok(t) => t@ == printed(json_of(*value)) && (plain(json_of(*value), NESTING_LIMIT as nat)
                ==> parsed(encode_utf8(t@)) == Some(json_of(*value))),
            Err(_) => false,
        },
{
    serde_json::to_string(value)
}

/// The value that a `serde_json::Value` holds.
pub fn from_serde(value: serde_json::Value) -> (result: JsonValue)
    ensures
        result@ == json_of(value),
    decreases json_of(value),
{
    let ghost json = json_of(value);
    match open(value) {
        Node::Null => JsonValue::Null,
        Node::Bool(b) => JsonValue::Bool(b),
        Node::Signed(i) => JsonValue::Signed(i),
        Node::Unsigned(u) => JsonValue::Unsigned(u),
        Node::Decimal(d) => JsonValue::Decimal(d),
        Node::String(s) => JsonValue::String(s),
        Node::Array(outside) => {
            let ghost held = outside_items(outside@);
            let mut items: Vec<JsonValue> = Vec::new();
            for item in it: outside
                invariant
                    json == json_of(value),
                    json == Json::Array(held),
                    held == outside_items(it.seq()),
                    items@.len() == it.index(),
                    forall|k: int| 0 <= k < it.index() ==> #[trigger] items@[k]@ == held[k],
            {
                assert(held[it.index() as int] == json_of(item));
                assert(decreases_to!(json => json->Array_0));
                assert(decreases_to!(held => held[it.index() as int]));
                items.push(from_serde(item));
            }
            proof {
                lemma_items(items@);
                assert(items_json(items@) =~= held);
            }
            JsonValue::Array(items)
        },
        Node::Object(outside) => {
            let ghost held = outside_members(outside@);
            let mut object: Object = Object::new();
            proof {
                lemma_by_key(held);
            }
            assert(by_key(held.take(0)) =~= Map::<Seq<char>, Json>::empty());
            for member in it: outside
                invariant
                    json == json_of(value),
                    json == Json::Object(by_key(held)),
                    by_key(held).dom().finite(),
                    keys_differ(held),
                    held == outside_members(it.seq()),
                    object@ == by_key(held.take(it.index() as int)),
            {
                let ghost i = it.index() as int;
                proof {
                    assert(held[i] == (member.0@, json_of(member.1)));
                    lemma_by_key(held);
                    assert(decreases_to!(json => json->Object_0));
                    assert(decreases_to!(by_key(held) => by_key(held)[held[i].0]));
                    lemma_by_key(held.take(i));
                    assert(held.take(i + 1).drop_last() =~= held.take(i));
                }
                object.append(member.0, from_serde(member.1));
            }
            assert(held.take(held.len() as int) =~= held);
            JsonValue::Object(object)
        },
    }
}

/// The `serde_json::Value` that holds a value.
pub fn to_serde(value: &JsonValue) -> (result: serde_json::Value)
    ensures
        json_of(result) == value@,
    decreases value@,
{
    match value {
        JsonValue::Null => close(Node::Null),
        JsonValue::Bool(b) => close(Node::Bool(*b)),
        JsonValue::Signed(i) => close(Node::Signed(*i)),
        JsonValue::Unsigned(u) => close(Node::Unsigned(*u)),
        JsonValue::Decimal(d) => close(Node::Decimal(d.clone())),
        JsonValue::String(s) => close(Node::String(s.clone())),
        JsonValue::Array(items) => {
            let mut outside: Vec<serde_json::Value> = Vec::new();
            let mut i: usize = 0;
            while i < items.len()
                invariant
                    i <= items@.len(),
                    value@ == Json::Array(items_json(items@)),
                    outside@.len() == i,
                    forall|k: int| 0 <= k < i ==> json_of(#[trigger] outside@[k]) == items@[k]@,
                decreases items@.len() - i,
            {
                proof {
                    lemma_items(items@);
                    assert(decreases_to!(value@ => value@->Array_0));
                    assert(decreases_to!(value@->Array_0 => value@->Array_0[i as int]));
                }
                outside.push(to_serde(&items[i]));
                i += 1;
            }
            proof {
                lemma_items(items@);
                assert(outside_items(outside@) =~= items_json(items@));
            }
            close(Node::Array(outside))
        },
        JsonValue::Object(object) => {
            let members = object.members();
            let mut outside: Vec<(String, serde_json::Value)> = Vec::new();
            let mut i: usize = 0;
            while i < members.len()
                invariant
                    i <= members@.len(),
                    value@ == Json::Object(by_key(members_json(members@))),
                    keys_differ(members_json(members@)),
                    outside@.len() == i,
                    forall|k: int|
                        0 <= k < i ==> (#[trigger] outside@[k]).0@ == members@[k].0@ && json_of(
                            outside@[k].1,
                        ) == members@[k].1@,
                decreases members@.len() - i,
            {
                let member: &(String, JsonValue) = &members[i];
                proof {
                    let listed = members_json(members@);
                    lemma_members(members@);
                    lemma_by_key(listed);
                    assert(listed[i as int] == (member.0@, member.1@));
                    assert(decreases_to!(value@ => value@->Object_0));
                    assert(decreases_to!(by_key(listed) => by_key(listed)[listed[i as int].0]));
                }
                outside.push((member.0.clone(), to_serde(&member.1)));
                i += 1;
            }
            proof {
                lemma_members(members@);
                assert(outside_members(outside@) =~= members_json(members@));
            }
            close(Node::Object(outside))
        },
    }
}

/// Reads a value from a JSON text.
pub fn decode(text: &[u8]) -> (value: Result<JsonValue, serde_json::Error>)
    ensures
        match value {
            Ok(v) => parsed(text@) == Some(v@),
            Err(_) => parsed(text@) is None,
        },
{
    match from_slice(text) {
        Ok(value) => Ok(from_serde(value)),
        Err(error) => Err(error),
    }
}

/// Writes a value as a JSON text.
pub fn encode(value: &JsonValue) -> (text: String)
    ensures
        text@ == printed(value@),
        plain(value@, NESTING_LIMIT as nat) ==> parsed(encode_utf8(text@)) == Some(value@),
{
    match to_string(&to_serde(value)) {
        Ok(text) => text,
        Err(_) => String::new(),
    }
}

} // verus!
