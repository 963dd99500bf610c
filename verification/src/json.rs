//! JSON values: what the proxy reads, builds and passes on.
//!
//! [`JsonValue`] is the value that the code works on; [`Json`] is what it means. Two
//! values that differ only in the order of an object's members, or in the integer
//! type that holds a number, mean the same.
use crate::text::same_text;
use vstd::prelude::*;

verus! {

/// `serde_json::Number`, carried through unread.
#[verifier::external_type_specification]
#[verifier::external_body]
pub struct ExNumber(serde_json::Number);

/// `serde_json::Number::clone`: the copy is the same number.
pub assume_specification[ <serde_json::Number as Clone>::clone ](number: &serde_json::Number) -> (copy:
    serde_json::Number)
    ensures
        copy == *number,
;

/// A number that is not an integer of 64 bits: one written with a fraction or an
/// exponent, or too large. The proxy never looks inside one.
///
/// One is only made from a `serde_json::Number` that holds no integer.
#[derive(Debug)]
pub struct Decimal {
    pub(crate) number: serde_json::Number,
}

/// What a JSON text stands for.
#[verifier::ext_equal]
pub enum Json {
    Null,
    Bool(bool),
    Integer(int),
    Decimal(Decimal),
    String(Seq<char>),
    Array(Seq<Json>),
    Object(Map<Seq<char>, Json>),
}

/// A JSON value.
#[derive(Debug)]
pub enum JsonValue {
    Null,
    Bool(bool),
    Signed(i64),
    Unsigned(u64),
    Decimal(Decimal),
    String(String),
    Array(Vec<JsonValue>),
    Object(Object),
}

/// The members of a JSON object. No two of them have the same key.
#[derive(Debug)]
pub struct Object {
    members: Vec<(String, JsonValue)>,
}

/// What a value means.
pub open spec fn value_json(v: JsonValue) -> Json
    decreases v,
{
    match v {
        JsonValue::Null => Json::Null,
        JsonValue::Bool(b) => Json::Bool(b),
        JsonValue::Signed(i) => Json::Integer(i as int),
        JsonValue::Unsigned(u) => Json::Integer(u as int),
        JsonValue::Decimal(d) => Json::Decimal(d),
        JsonValue::String(s) => Json::String(s@),
        JsonValue::Array(items) => Json::Array(items_json(items@)),
        JsonValue::Object(object) => Json::Object(object_json(object)),
    }
}

/// What each item means.
pub open spec fn items_json(items: Seq<JsonValue>) -> Seq<Json>
    decreases items,
{
    Seq::new(
        items.len(),
        |i: int| if 0 <= i < items.len() { value_json(items[i]) } else { Json::Null },
    )
}

/// The key of each member with what its value means.
pub open spec fn members_json(members: Seq<(String, JsonValue)>) -> Seq<(Seq<char>, Json)>
    decreases members,
{
    Seq::new(
        members.len(),
        |i: int|
            if 0 <= i < members.len() {
                (members[i].0@, value_json(members[i].1))
            } else {
                (Seq::empty(), Json::Null)
            },
    )
}

/// The members of an object by their keys.
pub closed spec fn object_json(object: Object) -> Map<Seq<char>, Json>
    decreases object,
{
    by_key(members_json(object.members@))
}

/// The map that a sequence of members makes.
pub open spec fn by_key(members: Seq<(Seq<char>, Json)>) -> Map<Seq<char>, Json>
    decreases members.len(),
{
    if members.len() == 0 {
        Map::empty()
    } else {
        by_key(members.drop_last()).insert(members.last().0, members.last().1)
    }
}

/// No two members have the same key.
pub open spec fn keys_differ(members: Seq<(Seq<char>, Json)>) -> bool {
    forall|i: int, j: int|
        0 <= i < j < members.len() ==> (#[trigger] members[i]).0 != (#[trigger] members[j]).0
}

impl View for JsonValue {
    type V = Json;

    open spec fn view(&self) -> Json {
        value_json(*self)
    }
}

impl View for Object {
    type V = Map<Seq<char>, Json>;

    open spec fn view(&self) -> Map<Seq<char>, Json> {
        object_json(*self)
    }
}

/// What a borrowed value means, if there is one.
pub open spec fn borrowed(value: Option<&JsonValue>) -> Option<Json> {
    match value {
        Some(v) => Some(v@),
        None => None,
    }
}

impl Json {
    /// The member of an object under a key.
    pub open spec fn get(self, key: Seq<char>) -> Option<Json> {
        match self {
            Json::Object(members) => if members.contains_key(key) {
                Some(members[key])
            } else {
                None
            },
            _ => None,
        }
    }

    /// The characters of a string.
    pub open spec fn as_str(self) -> Option<Seq<char>> {
        match self {
            Json::String(text) => Some(text),
            _ => None,
        }
    }

    /// The value of an integer that fits in an `i64`.
    pub open spec fn as_i64(self) -> Option<i64> {
        match self {
            Json::Integer(i) => if i64::MIN <= i <= i64::MAX {
                Some(i as i64)
            } else {
                None
            },
            _ => None,
        }
    }

    /// The items of an array.
    pub open spec fn as_array(self) -> Option<Seq<Json>> {
        match self {
            Json::Array(items) => Some(items),
            _ => None,
        }
    }
}

/// An object gives the member that it has under a key, whatever the key and the member are,
/// and nothing under a key that it does not have. Nothing else has members.
pub proof fn lemma_get(members: Map<Seq<char>, Json>, key: Seq<char>, other: Json)
    requires
        !(other is Object),
    ensures
        members.contains_key(key) ==> Json::Object(members).get(key) == Some(members[key]),
        !members.contains_key(key) ==> Json::Object(members).get(key) is None,
        other.get(key) is None,
{
}

/// A string gives its characters, an array its items, and an integer its value where an `i64`
/// can hold it. No other value gives any of these.
pub proof fn lemma_parts(json: Json, text: Seq<char>, items: Seq<Json>, i: i64)
    ensures
        json.as_str() == Some(text) <==> json == Json::String(text),
        json.as_array() == Some(items) <==> json == Json::Array(items),
        json.as_i64() == Some(i) <==> json == Json::Integer(i as int),
{
}

/// Every value means the JSON value of its own kind with the same content.
pub proof fn lemma_meaning(
    b: bool,
    i: i64,
    u: u64,
    decimal: Decimal,
    text: String,
    items: Vec<JsonValue>,
    object: Object,
)
    ensures
        JsonValue::Null@ == Json::Null,
        JsonValue::Bool(b)@ == Json::Bool(b),
        JsonValue::Signed(i)@ == Json::Integer(i as int),
        JsonValue::Unsigned(u)@ == Json::Integer(u as int),
        JsonValue::Decimal(decimal)@ == Json::Decimal(decimal),
        JsonValue::String(text)@ == Json::String(text@),
        JsonValue::Array(items)@ == Json::Array(items_json(items@)),
        items_json(items@).len() == items@.len(),
        forall|k: int| 0 <= k < items@.len() ==> #[trigger] items_json(items@)[k] == items@[k]@,
        JsonValue::Object(object)@ == Json::Object(object@),
{
}

/// An array means the sequence of what its items mean.
pub broadcast proof fn lemma_items(items: Seq<JsonValue>)
    ensures
        (#[trigger] items_json(items)).len() == items.len(),
        forall|i: int| 0 <= i < items.len() ==> #[trigger] items_json(items)[i] == items[i]@,
{
}

/// A member with its key stands in the sequence for the member that it is.
pub broadcast proof fn lemma_members(members: Seq<(String, JsonValue)>)
    ensures
        (#[trigger] members_json(members)).len() == members.len(),
        forall|i: int|
            0 <= i < members.len() ==> #[trigger] members_json(members)[i] == (
                members[i].0@,
                members[i].1@,
            ),
{
}

/// The map holds the members of the sequence, and nothing else.
pub proof fn lemma_by_key(members: Seq<(Seq<char>, Json)>)
    ensures
        by_key(members).dom().finite(),
        forall|key: Seq<char>| #[trigger]
            by_key(members).contains_key(key) ==> exists|i: int|
                0 <= i < members.len() && (#[trigger] members[i]).0 == key,
        forall|i: int|
            0 <= i < members.len() ==> by_key(members).contains_key((#[trigger] members[i]).0),
        keys_differ(members) ==> forall|i: int|
            0 <= i < members.len() ==> by_key(members)[(#[trigger] members[i]).0] == members[i].1,
    decreases members.len(),
{
    if members.len() > 0 {
        let init = members.drop_last();
        lemma_by_key(init);
        assert forall|key: Seq<char>| #[trigger]
            by_key(members).contains_key(key) implies exists|i: int|
            0 <= i < members.len() && (#[trigger] members[i]).0 == key by {
            if key == members.last().0 {
                assert(members[members.len() - 1].0 == key);
            } else {
                assert(by_key(init).contains_key(key));
                let i = choose|i: int| 0 <= i < init.len() && (#[trigger] init[i]).0 == key;
                assert(members[i].0 == key);
            }
        }
        assert forall|i: int| 0 <= i < members.len() implies by_key(members).contains_key(
            (#[trigger] members[i]).0,
        ) by {
            if i < init.len() {
                assert(init[i].0 == members[i].0);
            }
        }
        if keys_differ(members) {
            assert(keys_differ(init)) by {
                assert forall|i: int, j: int| 0 <= i < j < init.len() implies (
                #[trigger] init[i]).0 != (#[trigger] init[j]).0 by {
                    assert(members[i].0 != members[j].0);
                }
            }
            assert forall|i: int| 0 <= i < members.len() implies by_key(
                members,
            )[(#[trigger] members[i]).0] == members[i].1 by {
                if i < init.len() {
                    assert(init[i].0 == members[i].0);
                    assert(members[i].0 != members[members.len() - 1].0);
                }
            }
        }
    }
}

proof fn lemma_by_key_update(members: Seq<(Seq<char>, Json)>, i: int, value: Json)
    requires
        0 <= i < members.len(),
        keys_differ(members),
    ensures
        keys_differ(members.update(i, (members[i].0, value))),
        by_key(members.update(i, (members[i].0, value))) == by_key(members).insert(
            members[i].0,
            value,
        ),
{
    let after = members.update(i, (members[i].0, value));
    assert forall|j: int, k: int| 0 <= j < k < after.len() implies (#[trigger] after[j]).0 != (
    #[trigger] after[k]).0 by {
        assert(members[j].0 != members[k].0);
    }
    lemma_by_key(members);
    lemma_by_key(after);
    let expected = by_key(members).insert(members[i].0, value);
    assert forall|key: Seq<char>|
        #![trigger by_key(after).dom().contains(key)]
        #![trigger expected.dom().contains(key)]
        by_key(after).contains_key(key) == expected.contains_key(key) && (expected.contains_key(key)
            ==> by_key(after)[key] == expected[key]) by {
        if expected.contains_key(key) && key != members[i].0 {
            let k = choose|k: int| 0 <= k < members.len() && (#[trigger] members[k]).0 == key;
            assert(after[k].0 == key);
        }
        if by_key(after).contains_key(key) && key != members[i].0 {
            let k = choose|k: int| 0 <= k < after.len() && (#[trigger] after[k]).0 == key;
            assert(members[k].0 == key);
        }
        assert(after[i].0 == members[i].0);
    }
    assert(by_key(after) =~= expected);
}

impl Object {
    #[verifier::type_invariant]
    spec fn well_formed(self) -> bool {
        keys_differ(members_json(self.members@))
    }

    /// An object without members.
    pub fn new() -> (object: Object)
        ensures
            object@ == Map::<Seq<char>, Json>::empty(),
    {
        Object { members: Vec::new() }
    }

    /// The members, in some order.
    pub fn members(&self) -> (members: &Vec<(String, JsonValue)>)
        ensures
            by_key(members_json(members@)) == self@,
            keys_differ(members_json(members@)),
    {
        proof {
            use_type_invariant(self);
        }
        &self.members
    }

    /// The place of a key among the members.
    fn position(&self, key: &str) -> (place: Option<usize>)
        ensures
            match place {
                Some(i) => i < self.members@.len() && self.members@[i as int].0@ == key@,
                None => !self@.contains_key(key@),
            },
    {
        proof {
            lemma_by_key(members_json(self.members@));
        }
        let mut i: usize = 0;
        while i < self.members.len()
            invariant
                i <= self.members@.len(),
                forall|k: int|
                    0 <= k < i ==> (#[trigger] members_json(self.members@)[k]).0 != key@,
            decreases self.members@.len() - i,
        {
            proof {
                lemma_members(self.members@);
            }
            if same_text(self.members[i].0.as_str(), key) {
                return Some(i);
            }
            i += 1;
        }
        None
    }

    /// The member under a key.
    pub fn get(&self, key: &str) -> (value: Option<&JsonValue>)
        ensures
            borrowed(value) == Json::Object(self@).get(key@),
    {
        proof {
            use_type_invariant(self);
            lemma_members(self.members@);
            lemma_by_key(members_json(self.members@));
        }
        match self.position(key) {
            Some(i) => {
                assert(members_json(self.members@)[i as int].0 == key@);
                Some(&self.members[i].1)
            },
            None => None,
        }
    }

    /// Puts a member under a key, in place of the one that was there.
    pub fn insert(&mut self, key: String, value: JsonValue)
        ensures
            final(self)@ == old(self)@.insert(key@, value@),
    {
        match self.position(key.as_str()) {
            Some(i) => {
                proof {
                    use_type_invariant(&*self);
                }
                let mut members: Vec<(String, JsonValue)> = Vec::new();
                std::mem::swap(&mut members, &mut self.members);
                let ghost before = members_json(members@);
                members.set(i, (key, value));
                proof {
                    lemma_by_key_update(before, i as int, value@);
                    assert(members_json(members@) =~= before.update(i as int, (key@, value@)));
                }
                self.members = members;
            },
            None => self.append(key, value),
        }
    }

    /// Adds a member under a key that is new.
    pub(crate) fn append(&mut self, key: String, value: JsonValue)
        requires
            !old(self)@.contains_key(key@),
        ensures
            final(self)@ == old(self)@.insert(key@, value@),
    {
        proof {
            use_type_invariant(&*self);
        }
        let mut members: Vec<(String, JsonValue)> = Vec::new();
        std::mem::swap(&mut members, &mut self.members);
        let ghost before = members_json(members@);
        proof {
            lemma_by_key(before);
        }
        members.push((key, value));
        proof {
            assert(members_json(members@) =~= before.push((key@, value@)));
            assert(before.push((key@, value@)).drop_last() =~= before);
        }
        self.members = members;
    }
}

impl Clone for Decimal {
    fn clone(&self) -> (copy: Decimal)
        ensures
            copy == *self,
    {
        Decimal { number: self.number.clone() }
    }
}

impl Clone for JsonValue {
    fn clone(&self) -> (copy: JsonValue)
        ensures
            copy@ == self@,
        decreases self,
    {
        match self {
            JsonValue::Null => JsonValue::Null,
            JsonValue::Bool(b) => JsonValue::Bool(*b),
            JsonValue::Signed(i) => JsonValue::Signed(*i),
            JsonValue::Unsigned(u) => JsonValue::Unsigned(*u),
            JsonValue::Decimal(d) => JsonValue::Decimal(d.clone()),
            JsonValue::String(s) => JsonValue::String(s.clone()),
            JsonValue::Array(items) => {
                let mut copies: Vec<JsonValue> = Vec::new();
                let mut i: usize = 0;
                while i < items.len()
                    invariant
                        i <= items@.len(),
                        copies@.len() == i,
                        decreases_to!(self => items@),
                        forall|k: int| 0 <= k < i ==> #[trigger] copies@[k]@ == items@[k]@,
                    decreases items@.len() - i,
                {
                    copies.push(items[i].clone());
                    i += 1;
                }
                proof {
                    lemma_items(copies@);
                    lemma_items(items@);
                }
                assert(items_json(copies@) =~= items_json(items@));
                JsonValue::Array(copies)
            },
            JsonValue::Object(object) => JsonValue::Object(object.clone()),
        }
    }
}

impl Clone for Object {
    fn clone(&self) -> (copy: Object)
        ensures
            copy@ == self@,
        decreases self,
    {
        proof {
            use_type_invariant(self);
        }
        let mut copies: Vec<(String, JsonValue)> = Vec::new();
        let mut i: usize = 0;
        while i < self.members.len()
            invariant
                i <= self.members@.len(),
                copies@.len() == i,
                forall|k: int|
                    0 <= k < i ==> (#[trigger] copies@[k]).0@ == self.members@[k].0@
                        && copies@[k].1@ == self.members@[k].1@,
            decreases self.members@.len() - i,
        {
            let member: &(String, JsonValue) = &self.members[i];
            copies.push((member.0.clone(), member.1.clone()));
            i += 1;
        }
        proof {
            lemma_members(copies@);
            lemma_members(self.members@);
            assert(members_json(copies@) =~= members_json(self.members@));
        }
        Object { members: copies }
    }
}

impl JsonValue {
    /// The member of an object under a key.
    pub fn get(&self, key: &str) -> (value: Option<&JsonValue>)
        ensures
            borrowed(value) == self@.get(key@),
    {
        match self {
            JsonValue::Object(object) => object.get(key),
            _ => None,
        }
    }

    /// The text of a string.
    pub fn as_str(&self) -> (text: Option<&str>)
        ensures
            match text {
                Some(t) => self@.as_str() == Some(t@),
                None => self@.as_str() is None,
            },
    {
        match self {
            JsonValue::String(text) => Some(text.as_str()),
            _ => None,
        }
    }

    /// The value of an integer that fits in an `i64`.
    pub fn as_i64(&self) -> (integer: Option<i64>)
        ensures
            integer == self@.as_i64(),
    {
        match self {
            JsonValue::Signed(i) => Some(*i),
            JsonValue::Unsigned(u) => if *u <= i64::MAX as u64 {
                Some(*u as i64)
            } else {
                None
            },
            _ => None,
        }
    }

    /// The items of an array.
    pub fn as_array(&self) -> (items: Option<&Vec<JsonValue>>)
        ensures
            match items {
                Some(v) => self@.as_array() == Some(items_json(v@)),
                None => self@.as_array() is None,
            },
    {
        match self {
            JsonValue::Array(items) => Some(items),
            _ => None,
        }
    }
}

} // verus!
