//! JSON values.
use vstd::prelude::*;
use vstd::string::*;

use crate::text::same;

verus! {

/// A JSON value.
pub enum Json {
    Null,
    Bool(bool),
    /// A number; its value where it is an integer from 0 to 2^64 - 1.
    Number(Option<u64>),
    Text(String),
    Array(Vec<Json>),
    /// The members with their names.
    Object(Vec<(String, Json)>),
}

/// The place of the first member of that name, or the number of members.
pub open spec fn member_at(members: Seq<(String, Json)>, name: Seq<char>) -> nat
    decreases members.len(),
{
    if members.len() == 0 || members[0].0@ == name {
        0
    } else {
        1 + member_at(members.skip(1), name)
    }
}

/// The member of that name; `Null` where there is none.
pub open spec fn field(value: Json, name: Seq<char>) -> Json {
    match value {
        Json::Object(members) => {
            let k = member_at(members@, name) as int;
            if k < members@.len() {
                members@[k].1
            } else {
                Json::Null
            }
        },
        _ => Json::Null,
    }
}

/// The elements of an array; none for anything else.
pub open spec fn elements(value: Json) -> Seq<Json> {
    match value {
        Json::Array(items) => items@,
        _ => Seq::empty(),
    }
}

/// The first element of an array; `Null` where there is none.
pub open spec fn first_element(value: Json) -> Json {
    if elements(value).len() > 0 {
        elements(value)[0]
    } else {
        Json::Null
    }
}

/// The text that a value is.
pub open spec fn text_of(value: Json) -> Option<Seq<char>> {
    match value {
        Json::Text(s) => Some(s@),
        _ => None,
    }
}

/// The number that a value is.
pub open spec fn number_of(value: Json) -> Option<u64> {
    match value {
        Json::Number(n) => n,
        _ => None,
    }
}

proof fn lemma_member_at(members: Seq<(String, Json)>, name: Seq<char>, k: int)
    requires
        0 <= k <= members.len(),
        forall|j: int| 0 <= j < k ==> (#[trigger] members[j]).0@ != name,
        k < members.len() ==> members[k].0@ == name,
    ensures
        member_at(members, name) == k,
    decreases k,
{
    if k > 0 {
        assert(members[0].0@ != name);
        assert forall|j: int| 0 <= j < k - 1 implies (#[trigger] members.skip(1)[j]).0@
            != name by {
            assert(members.skip(1)[j] == members[j + 1]);
        }
        lemma_member_at(members.skip(1), name, k - 1);
    }
}

impl Json {
    /// The member of that name, where the value is an object that has one.
    pub fn member(&self, name: &str) -> (r: Option<&Json>)
        ensures
            match r {
                Some(v) => *v == field(*self, name@),
                None => field(*self, name@) == Json::Null,
            },
    {
        match self {
            Json::Object(members) => {
                let mut i: usize = 0;
                while i < members.len()
                    invariant
                        i <= members@.len(),
                        *self == Json::Object(*members),
                        forall|j: int| 0 <= j < i ==> (#[trigger] members@[j]).0@ != name@,
                    decreases members@.len() - i,
                {
                    if same(members[i].0.as_str(), name) {
                        proof {
                            lemma_member_at(members@, name@, i as int);
                        }
                        return Some(&members[i].1);
                    }
                    i += 1;
                }
                proof {
                    lemma_member_at(members@, name@, i as int);
                }
                None
            },
            _ => None,
        }
    }

    /// The text that the value is.
    pub fn text(&self) -> (r: Option<&str>)
        ensures
            match r {
                Some(t) => text_of(*self) == Some(t@),
                None => text_of(*self) is None,
            },
    {
        match self {
            Json::Text(s) => Some(s.as_str()),
            _ => None,
        }
    }

    /// The text that the member of that name is.
    pub fn member_text(&self, name: &str) -> (r: Option<&str>)
        ensures
            match r {
                Some(t) => text_of(field(*self, name@)) == Some(t@),
                None => text_of(field(*self, name@)) is None,
            },
    {
        match self.member(name) {
            Some(v) => v.text(),
            None => None,
        }
    }

    /// The number that the member of that name is.
    pub fn member_number(&self, name: &str) -> (r: Option<u64>)
        ensures
            r == number_of(field(*self, name@)),
    {
        match self.member(name) {
            Some(v) => match v {
                Json::Number(n) => *n,
                _ => None,
            },
            None => None,
        }
    }

    /// The elements of the array that the member of that name is.
    pub fn member_elements(&self, name: &str) -> (r: Option<&Vec<Json>>)
        ensures
            match r {
                Some(v) => field(*self, name@) == Json::Array(*v),
                None => !(field(*self, name@) is Array),
            },
    {
        match self.member(name) {
            Some(v) => match v {
                Json::Array(items) => Some(items),
                _ => None,
            },
            None => None,
        }
    }
}

/// A member is found by its name, the first of several; what is no object has none.
pub proof fn law_members_are_found_by_name(value: Json, name: Seq<char>, k: int)
    ensures
        value matches Json::Object(members) ==> {
            &&& 0 <= k < members@.len() && members@[k].0@ == name && (forall|j: int|
                0 <= j < k ==> (#[trigger] members@[j]).0@ != name) ==> field(value, name)
                == members@[k].1
            &&& (forall|j: int| 0 <= j < members@.len() ==> (#[trigger] members@[j]).0@ != name)
                ==> field(value, name) == Json::Null
        },
        !(value is Object) ==> field(value, name) == Json::Null,
{
    if let Json::Object(members) = value {
        let s = members@;
        if 0 <= k < s.len() && s[k].0@ == name && (forall|j: int|
            0 <= j < k ==> (#[trigger] s[j]).0@ != name) {
            lemma_member_at(s, name, k);
        }
        if forall|j: int| 0 <= j < s.len() ==> (#[trigger] s[j]).0@ != name {
            lemma_member_at(s, name, s.len() as int);
        }
    }
}

} // verus!
