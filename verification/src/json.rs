//! A JSON document as the analytics rules read it.

use vstd::prelude::*;
use vstd::string::*;
use crate::scalar::Scalar;
use crate::text::same_text;

verus! {

/// A JSON number: its exact integer readings, where it has them, and the
/// binary64 value nearest to it.
#[derive(Clone, Copy, Debug)]
pub struct Number {
    /// The number as a signed 64-bit integer, if it is one.
    pub signed: Option<i64>,
    /// The number as an unsigned 64-bit integer, if it is one.
    pub unsigned: Option<u64>,
    /// The number as a binary64 value.
    pub real: Scalar,
}

/// One `key: value` pair of a JSON object.
#[derive(Debug)]
pub struct Member {
    pub key: String,
    pub value: Json,
}

/// A JSON document. An object keeps its members in order; a key is looked up
/// from the front, so the first member with a key is the one that counts.
#[derive(Debug)]
pub enum Json {
    Null,
    Bool(bool),
    Number(Number),
    Text(String),
    Array(Vec<Json>),
    Object(Vec<Member>),
}

/// The value of the first member of `members` whose key is `key`.
pub open spec fn lookup(members: Seq<Member>, key: Seq<char>) -> Option<Json>
    decreases members.len(),
{
    if members.len() == 0 {
        None
    } else if members[0].key@ == key {
        Some(members[0].value)
    } else {
        lookup(members.skip(1), key)
    }
}

/// The position of the first member of `members` whose key is `key`.
pub open spec fn position(members: Seq<Member>, key: Seq<char>) -> Option<int>
    decreases members.len(),
{
    if members.len() == 0 {
        None
    } else if members[0].key@ == key {
        Some(0int)
    } else {
        match position(members.skip(1), key) {
            Some(i) => Some(i + 1),
            None => None,
        }
    }
}

/// `position` finds the first member with the key, and `lookup` is its value.
pub proof fn lemma_position(members: Seq<Member>, key: Seq<char>)
    ensures
        match position(members, key) {
            Some(i) => {
                &&& 0 <= i < members.len()
                &&& members[i].key@ == key
                &&& forall|j: int| 0 <= j < i ==> members[j].key@ != key
                &&& lookup(members, key) == Some(members[i].value)
            },
            None => {
                &&& forall|j: int| 0 <= j < members.len() ==> members[j].key@ != key
                &&& lookup(members, key) is None
            },
        },
    decreases members.len(),
{
    if members.len() > 0 && members[0].key@ != key {
        let rest = members.skip(1);
        lemma_position(rest, key);
        match position(rest, key) {
            Some(i) => {
                assert forall|j: int| 0 <= j < i + 1 implies members[j].key@ != key by {
                    if j > 0 {
                        assert(rest[j - 1] == members[j]);
                    }
                }
            },
            None => {
                assert forall|j: int| 0 <= j < members.len() implies members[j].key@ != key by {
                    if j > 0 {
                        assert(rest[j - 1] == members[j]);
                    }
                }
            },
        }
    }
}

/// A position before which no member has the key decides the lookup.
pub proof fn lemma_lookup_at(members: Seq<Member>, key: Seq<char>, i: int)
    requires
        0 <= i <= members.len(),
        forall|j: int| 0 <= j < i ==> members[j].key@ != key,
        i < members.len() ==> members[i].key@ == key,
    ensures
        position(members, key) == (if i < members.len() {
            Some(i)
        } else {
            None
        }),
        lookup(members, key) == (if i < members.len() {
            Some(members[i].value)
        } else {
            None
        }),
{
    lemma_position(members, key);
    match position(members, key) {
        Some(p) => {
        },
        None => {
        },
    }
}

/// The members after `key` has been given the value `value`: the first member
/// with that key gets the value, or a new member is added at the end.
pub open spec fn inserted(members: Seq<Member>, key: String, value: Json) -> Seq<Member> {
    match position(members, key@) {
        Some(i) => members.update(i, Member { key: members[i].key, value }),
        None => members.push(Member { key, value }),
    }
}

/// After an insertion the key holds the new value and every other key holds
/// what it held before.
pub proof fn lemma_inserted(members: Seq<Member>, key: String, value: Json, other: Seq<char>)
    ensures
        lookup(inserted(members, key, value), key@) == Some(value),
        other != key@ ==> lookup(inserted(members, key, value), other) == lookup(members, other),
{
    let after = inserted(members, key, value);
    lemma_position(members, key@);
    match position(members, key@) {
        Some(i) => {
            lemma_lookup_at(after, key@, i);
            if other != key@ {
                lemma_position(members, other);
                match position(members, other) {
                    Some(p) => {
                        lemma_lookup_at(after, other, p);
                    },
                    None => {
                        lemma_lookup_at(after, other, after.len() as int);
                    },
                }
            }
        },
        None => {
            lemma_lookup_at(after, key@, members.len() as int);
            if other != key@ {
                lemma_position(members, other);
                match position(members, other) {
                    Some(p) => {
                        lemma_lookup_at(after, other, p);
                    },
                    None => {
                        lemma_lookup_at(after, other, after.len() as int);
                    },
                }
            }
        },
    }
}

/// The index of the first member whose key is `key`.
pub fn find_member(members: &Vec<Member>, key: &str) -> (r: Option<usize>)
    ensures
        match r {
            Some(i) => position(members@, key@) == Some(i as int),
            None => position(members@, key@) is None,
        },
{
    let mut i: usize = 0;
    while i < members.len()
        invariant
            i <= members@.len(),
            forall|j: int| 0 <= j < i ==> members@[j].key@ != key@,
        decreases members@.len() - i,
    {
        if same_text(members[i].key.as_str(), key) {
            proof {
                lemma_lookup_at(members@, key@, i as int);
            }
            return Some(i);
        }
        i = i + 1;
    }
    proof {
        lemma_lookup_at(members@, key@, i as int);
    }
    None
}

impl Json {
    /// The member `key` of an object; nothing for any other document.
    pub open spec fn spec_get(self, key: Seq<char>) -> Option<Json> {
        match self {
            Json::Object(members) => lookup(members@, key),
            _ => None,
        }
    }

    /// The number as a signed integer.
    pub open spec fn spec_as_i64(self) -> Option<i64> {
        match self {
            Json::Number(n) => n.signed,
            _ => None,
        }
    }

    /// The number as an unsigned integer.
    pub open spec fn spec_as_u64(self) -> Option<u64> {
        match self {
            Json::Number(n) => n.unsigned,
            _ => None,
        }
    }

    /// The number as a binary64 value.
    pub open spec fn spec_as_f64(self) -> Option<Scalar> {
        match self {
            Json::Number(n) => Some(n.real),
            _ => None,
        }
    }

    /// The text of a string document.
    pub open spec fn spec_as_str(self) -> Option<Seq<char>> {
        match self {
            Json::Text(s) => Some(s@),
            _ => None,
        }
    }

    /// The items of an array.
    pub open spec fn spec_as_array(self) -> Option<Seq<Json>> {
        match self {
            Json::Array(items) => Some(items@),
            _ => None,
        }
    }

    /// Whether the document is an object.
    pub open spec fn spec_is_object(self) -> bool {
        self is Object
    }

    /// Whether `self` is `before` with `key` set to `value`: an object gets
    /// the member, any other document stays as it is.
    pub open spec fn is_with_member(self, before: Json, key: String, value: Json) -> bool {
        match before {
            Json::Object(members) => match self {
                Json::Object(after) => after@ == inserted(members@, key, value),
                _ => false,
            },
            _ => self == before,
        }
    }

    /// The document with `key` set to `value`.
    pub fn with_member(self, key: String, value: Json) -> (r: Json)
        ensures
            r.is_with_member(self, key, value),
    {
        match self {
            Json::Object(members) => {
                let mut members = members;
                match find_member(&members, key.as_str()) {
                    Some(i) => {
                        proof {
                            lemma_position(members@, key@);
                        }
                        let own = members[i].key.clone();
                        members.set(i, Member { key: own, value });
                    },
                    None => {
                        members.push(Member { key, value });
                    },
                }
                Json::Object(members)
            },
            other => other,
        }
    }

    /// The member `key` of an object.
    pub fn get(&self, key: &str) -> (r: Option<&Json>)
        ensures
            match r {
                Some(v) => self.spec_get(key@) == Some(*v),
                None => self.spec_get(key@) is None,
            },
    {
        match self {
            Json::Object(members) => {
                proof {
                    lemma_position(members@, key@);
                }
                match find_member(members, key) {
                    Some(i) => Some(&members[i].value),
                    None => None,
                }
            },
            _ => None,
        }
    }

    /// The number as a signed integer.
    pub fn as_i64(&self) -> (r: Option<i64>)
        ensures
            r == self.spec_as_i64(),
    {
        match self {
            Json::Number(n) => n.signed,
            _ => None,
        }
    }

    /// The number as an unsigned integer.
    pub fn as_u64(&self) -> (r: Option<u64>)
        ensures
            r == self.spec_as_u64(),
    {
        match self {
            Json::Number(n) => n.unsigned,
            _ => None,
        }
    }

    /// The number as a binary64 value.
    pub fn as_f64(&self) -> (r: Option<Scalar>)
        ensures
            r == self.spec_as_f64(),
    {
        match self {
            Json::Number(n) => Some(n.real),
            _ => None,
        }
    }

    /// The text of a string document.
    pub fn as_str(&self) -> (r: Option<&str>)
        ensures
            match r {
                Some(s) => self.spec_as_str() == Some(s@),
                None => self.spec_as_str() is None,
            },
    {
        match self {
            Json::Text(s) => Some(s.as_str()),
            _ => None,
        }
    }

    /// The items of an array.
    pub fn as_array(&self) -> (r: Option<&Vec<Json>>)
        ensures
            match r {
                Some(items) => self.spec_as_array() == Some(items@),
                None => self.spec_as_array() is None,
            },
    {
        match self {
            Json::Array(items) => Some(items),
            _ => None,
        }
    }

    /// Whether the document is an object.
    pub fn is_object(&self) -> (r: bool)
        ensures
            r == self.spec_is_object(),
    {
        match self {
            Json::Object(_) => true,
            _ => false,
        }
    }
}

} // verus!
