//! JSON: answers as the crate reads them, and the variables of a request.
use vstd::prelude::*;
use vstd::string::*;

use crate::text::same;

verus! {

/// A JSON value, as far as it is read here: texts and objects. Numbers,
/// truth values, lists and `null` are all `Other`.
pub enum Json {
    Text(String),
    Object(Vec<(String, Json)>),
    Other,
}

/// The value of the first of `members` that is called `key`.
pub open spec fn first_member(members: Seq<(String, Json)>, key: Seq<char>) -> Option<Json>
    decreases members.len(),
{
    if members.len() == 0 {
        None
    } else if members[0].0@ == key {
        Some(members[0].1)
    } else {
        first_member(members.drop_first(), key)
    }
}

impl Json {
    /// The member called `key`, if this is an object that has one.
    pub open spec fn member(self, key: Seq<char>) -> Option<Json> {
        match self {
            Json::Object(members) => first_member(members@, key),
            _ => None,
        }
    }

    /// The text, if this is one.
    pub open spec fn text(self) -> Option<Seq<char>> {
        match self {
            Json::Text(text) => Some(text@),
            _ => None,
        }
    }

    /// The member called `key`, if this is an object that has one.
    pub fn get(&self, key: &str) -> (r: Option<&Json>)
        ensures
            r is Some <==> self.member(key@) is Some,
            r matches Some(value) ==> self.member(key@) == Some(*value),
    {
        match self {
            Json::Object(members) => {
                let mut i: usize = 0;
                proof {
                    assert(members@.skip(0) =~= members@);
                }
                while i < members.len()
                    invariant
                        0 <= i <= members@.len(),
                        self.member(key@) == first_member(members@.skip(i as int), key@),
                    decreases members@.len() - i,
                {
                    let ghost rest = members@.skip(i as int);
                    assert(rest[0] == members@[i as int]);
                    if same(members[i].0.as_str(), key) {
                        return Some(&members[i].1);
                    }
                    assert(rest.drop_first() =~= members@.skip(i + 1));
                    i += 1;
                }
                None
            },
            _ => None,
        }
    }

    /// The text, if this is one.
    pub fn as_str(&self) -> (r: Option<&String>)
        ensures
            r is Some <==> self.text() is Some,
            r matches Some(text) ==> self.text() == Some(text@),
    {
        match self {
            Json::Text(text) => Some(text),
            _ => None,
        }
    }
}

/// The map that `serde_json` keeps the members of an object in.
#[verifier::external_type_specification]
#[verifier::external_body]
#[verifier::reject_recursive_types(K)]
#[verifier::reject_recursive_types(V)]
pub struct ExMap<K, V>(serde_json::Map<K, V>);

/// A value of `serde_json`.
#[verifier::external_type_specification]
#[verifier::external_body]
pub struct ExValue(serde_json::Value);

/// The members of `m` that are texts, by their keys.
pub uninterp spec fn text_members(m: serde_json::Map<String, serde_json::Value>) -> Map<Seq<char>, Seq<char>>;

/// The members of `m` that are unsigned whole numbers, by their keys.
pub uninterp spec fn number_members(m: serde_json::Map<String, serde_json::Value>) -> Map<Seq<char>, u64>;

/// The keys of all members of `m`, of whatever kind they are.
pub uninterp spec fn member_keys(m: serde_json::Map<String, serde_json::Value>) -> Set<Seq<char>>;

/// `serde_json::Map::new` makes a map without members.
#[verifier::external_body]
pub(crate) fn no_variables() -> (r: serde_json::Map<String, serde_json::Value>)
    ensures
        (text_members(r) == Map::<Seq<char>, Seq<char>>::empty()),
        (number_members(r) == Map::<Seq<char>, u64>::empty()),
        member_keys(r) == Set::<Seq<char>>::empty(),
{
    serde_json::Map::new()
}

/// `serde_json::Map::insert` makes the text `value` the one value of `key`,
/// in place of any that was there, and leaves the other members as they are.
#[verifier::external_body]
pub(crate) fn insert_text(m: &mut serde_json::Map<String, serde_json::Value>, key: String, value: String)
    ensures
        text_members(*final(m)) == text_members(*old(m)).insert(key@, value@),
        number_members(*final(m)) == number_members(*old(m)).remove(key@),
        member_keys(*final(m)) == member_keys(*old(m)).insert(key@),
{
    m.insert(key, serde_json::Value::String(value));
}

/// `serde_json::Map::insert` makes the number `value` the one value of
/// `key`, in place of any that was there, and leaves the other members as
/// they are.
#[verifier::external_body]
pub(crate) fn insert_number(m: &mut serde_json::Map<String, serde_json::Value>, key: String, value: u64)
    ensures
        text_members(*final(m)) == text_members(*old(m)).remove(key@),
        number_members(*final(m)) == number_members(*old(m)).insert(key@, value),
        member_keys(*final(m)) == member_keys(*old(m)).insert(key@),
{
    m.insert(key, serde_json::Value::from(value));
}

/// A member is found by its key: the first with this key, and none where no
/// member has it. What is not an object has no members.
pub proof fn member_is_found_by_its_key(members: Vec<(String, Json)>, key: Seq<char>, i: int)
    requires
        0 <= i < members@.len(),
        members@[i].0@ == key,
        forall|j: int| 0 <= j < i ==> (#[trigger] members@[j]).0@ != key,
    ensures
        Json::Object(members).member(key) == Some(members@[i].1),
{
    first_is_found(members@, key, i);
}

proof fn first_is_found(members: Seq<(String, Json)>, key: Seq<char>, i: int)
    requires
        0 <= i < members.len(),
        members[i].0@ == key,
        forall|j: int| 0 <= j < i ==> (#[trigger] members[j]).0@ != key,
    ensures
        first_member(members, key) == Some(members[i].1),
    decreases members.len(),
{
    if i > 0 {
        let rest = members.drop_first();
        assert(members[0].0@ != key);
        assert(rest[i - 1] == members[i]);
        assert forall|j: int| 0 <= j < i - 1 implies (#[trigger] rest[j]).0@ != key by {
            assert(rest[j] == members[j + 1]);
        }
        first_is_found(rest, key, i - 1);
    }
}

/// A member that is found is one of the object, under the key asked for.
pub proof fn found_member_is_there(value: Json, key: Seq<char>)
    ensures
        value.member(key) matches Some(found) ==> (value matches Json::Object(members) && exists|i: int|
            0 <= i < members@.len() && (#[trigger] members@[i]).0@ == key && members@[i].1 == found),
{
    if let Json::Object(members) = value {
        found_is_there(members@, key);
    }
}

proof fn found_is_there(members: Seq<(String, Json)>, key: Seq<char>)
    ensures
        first_member(members, key) matches Some(found) ==> exists|i: int|
            0 <= i < members.len() && (#[trigger] members[i]).0@ == key && members[i].1 == found,
    decreases members.len(),
{
    if members.len() > 0 && members[0].0@ != key {
        let rest = members.drop_first();
        found_is_there(rest, key);
        if let Some(found) = first_member(rest, key) {
            let i = choose|i: int|
                0 <= i < rest.len() && (#[trigger] rest[i]).0@ == key && rest[i].1 == found;
            assert(members[i + 1] == rest[i]);
        }
    }
}

} // verus!
