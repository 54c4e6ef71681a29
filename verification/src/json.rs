//! JSON values as far as replies of mail services are read.
use vstd::prelude::*;

use crate::text::{copy, opt_text, same};

verus! {

/// A JSON value. Numbers that are no `i64` are told apart from the others but not
/// kept; the members of an object come in the order in which they are listed.
pub enum Json {
    Null,
    Bool(bool),
    Integer(i64),
    OtherNumber,
    Text(String),
    Array(Vec<Json>),
    Object(Vec<(String, Json)>),
}

/// The value of the first member with the name `key`.
pub open spec fn member(members: Seq<(String, Json)>, key: Seq<char>) -> Option<Json>
    decreases members.len(),
{
    if members.len() == 0 {
        None
    } else if members[0].0@ == key {
        Some(members[0].1)
    } else {
        member(members.skip(1), key)
    }
}

/// The member `key` of an object; nothing of any other value.
pub open spec fn field(value: Json, key: Seq<char>) -> Option<Json> {
    match value {
        Json::Object(members) => member(members@, key),
        _ => None,
    }
}

/// The member `key` of a value that may be missing.
pub open spec fn field_of(value: Option<Json>, key: Seq<char>) -> Option<Json> {
    match value {
        Some(v) => field(v, key),
        None => None,
    }
}

/// The text of a value that is a text.
pub open spec fn text_value(value: Option<Json>) -> Option<Seq<char>> {
    match value {
        Some(Json::Text(s)) => Some(s@),
        _ => None,
    }
}

/// The number of a value that is an `i64`.
pub open spec fn integer_value(value: Option<Json>) -> Option<i64> {
    match value {
        Some(Json::Integer(n)) => Some(n),
        _ => None,
    }
}

/// The elements of a value that is an array.
pub open spec fn array_value(value: Option<Json>) -> Option<Seq<Json>> {
    match value {
        Some(Json::Array(v)) => Some(v@),
        _ => None,
    }
}

/// The text member `key` of a value.
pub open spec fn text_field(value: Json, key: Seq<char>) -> Option<Seq<char>> {
    text_value(field(value, key))
}

proof fn lemma_member_place(members: Seq<(String, Json)>, key: Seq<char>)
    ensures
        member(members, key) matches Some(v) ==> exists|i: int|
            0 <= i < members.len() && (#[trigger] members[i]).1 == v,
    decreases members.len(),
{
    if members.len() > 0 && members[0].0@ != key {
        lemma_member_place(members.skip(1), key);
        match member(members.skip(1), key) {
            Some(v) => {
                let i = choose|i: int|
                    0 <= i < members.skip(1).len() && (#[trigger] members.skip(1)[i]).1 == v;
                assert(members[i + 1].1 == v);
            },
            None => {},
        }
    }
}

/// A member is smaller than the object that it belongs to, and an element of it
/// smaller still.
pub proof fn lemma_field_smaller(value: Json, key: Seq<char>)
    ensures
        field(value, key) matches Some(v) ==> decreases_to!(value => v),
        array_value(field(value, key)) matches Some(items) ==> forall|i: int|
            0 <= i < items.len() ==> decreases_to!(value => #[trigger] items[i]),
        array_value(field(value, key)) matches Some(items) ==> decreases_to!(value => items),
{
    match value {
        Json::Object(members) => {
            lemma_member_place(members@, key);
            match member(members@, key) {
                Some(v) => {
                    let i = choose|i: int| 0 <= i < members@.len() && (#[trigger] members@[i]).1 == v;
                    assert(decreases_to!(members => members@));
                    assert(decreases_to!(members@ => members@[i]));
                    assert(decreases_to!(members@[i] => members@[i].1));
                    assert(decreases_to!(value => v));
                    match v {
                        Json::Array(items) => {
                            assert(decreases_to!(v => items));
                            assert(decreases_to!(items => items@));
                            assert forall|k: int| 0 <= k < items@.len() implies decreases_to!(
                                value => #[trigger] items@[k]
                            ) by {
                                assert(decreases_to!(items@ => items@[k]));
                            }
                        },
                        _ => {},
                    }
                },
                None => {},
            }
        },
        _ => {},
    }
}

impl Json {
    /// Computes [`field`].
    pub fn get(&self, key: &str) -> (r: Option<&Json>)
        ensures
            match r {
                Some(v) => field(*self, key@) == Some(*v),
                None => field(*self, key@) is None,
            },
    {
        match self {
            Json::Object(members) => {
                let mut i: usize = 0;
                assert(members@.skip(0) =~= members@);
                while i < members.len()
                    invariant
                        i <= members.len(),
                        *self == Json::Object(*members),
                        member(members@.skip(i as int), key@) == member(members@, key@),
                    decreases members.len() - i,
                {
                    assert(members@.skip(i as int).skip(1) =~= members@.skip(i + 1));
                    if same(members[i].0.as_str(), key) {
                        return Some(&members[i].1);
                    }
                    i = i + 1;
                }
                None
            },
            _ => None,
        }
    }

    /// The elements, where this is an array.
    pub fn as_array(&self) -> (r: Option<&Vec<Json>>)
        ensures
            match r {
                Some(v) => array_value(Some(*self)) == Some(v@) && *self == Json::Array(*v),
                None => array_value(Some(*self)) is None,
            },
    {
        match self {
            Json::Array(v) => Some(v),
            _ => None,
        }
    }

    /// Computes [`text_field`].
    pub fn text(&self, key: &str) -> (r: Option<String>)
        ensures
            opt_text(r) == text_field(*self, key@),
    {
        match self.get(key) {
            Some(Json::Text(s)) => Some(copy(s)),
            _ => None,
        }
    }

    /// The `i64` member `key`.
    pub fn integer(&self, key: &str) -> (r: Option<i64>)
        ensures
            r == integer_value(field(*self, key@)),
    {
        match self.get(key) {
            Some(Json::Integer(n)) => Some(*n),
            _ => None,
        }
    }

    /// The elements of the array member `key`.
    pub fn list(&self, key: &str) -> (r: Option<&Vec<Json>>)
        ensures
            match r {
                Some(v) => array_value(field(*self, key@)) == Some(v@),
                None => array_value(field(*self, key@)) is None,
            },
    {
        match self.get(key) {
            Some(v) => v.as_array(),
            None => None,
        }
    }
}

/// Law: the first member with a name counts, and a member that is not there is
/// missing.
pub proof fn the_first_member_counts(members: Seq<(String, Json)>, key: Seq<char>, k: int)
    requires
        0 <= k <= members.len(),
        forall|j: int| 0 <= j < k ==> (#[trigger] members[j]).0@ != key,
        k < members.len() ==> members[k].0@ == key,
    ensures
        member(members, key) == if k < members.len() {
            Some(members[k].1)
        } else {
            None
        },
    decreases members.len(),
{
    if members.len() > 0 && k > 0 {
        let rest = members.skip(1);
        assert(members[0].0@ != key);
        assert forall|j: int| 0 <= j < k - 1 implies (#[trigger] rest[j]).0@ != key by {
            assert(rest[j] == members[j + 1]);
        }
        the_first_member_counts(rest, key, k - 1);
    }
}

} // verus!
