//! A JSON document as plain values, with the lookups that the DevTools event
//! handling makes.

use vstd::prelude::*;

verus! {

/// A JSON value.
pub enum Json {
    Null,
    Bool(bool),
    /// A number, kept as the text that writes it.
    Number(String),
    Str(String),
    Array(Vec<Json>),
    /// An object's members, in the order in which they are iterated.
    Object(Vec<JsonMember>),
}

/// One member of a JSON object.
pub struct JsonMember {
    pub name: String,
    pub value: Json,
}

/// The value of the first member of `members` named `key`.
pub open spec fn member_lookup(members: Seq<JsonMember>, key: Seq<char>) -> Option<Json>
    decreases members.len(),
{
    if members.len() == 0 {
        None
    } else if members[0].name@ == key {
        Some(members[0].value)
    } else {
        member_lookup(members.drop_first(), key)
    }
}

impl Json {
    /// `value.get(key)`: the member `key` of an object; `None` for anything
    /// that is not an object or has no such member.
    pub open spec fn get_spec(self, key: Seq<char>) -> Option<Json> {
        match self {
            Json::Object(members) => member_lookup(members@, key),
            _ => None,
        }
    }

    /// `value.as_str()`: the text of a string value.
    pub open spec fn str_spec(self) -> Option<Seq<char>> {
        match self {
            Json::Str(s) => Some(s@),
            _ => None,
        }
    }

    /// The members of an object value.
    pub open spec fn members_spec(self) -> Option<Seq<JsonMember>> {
        match self {
            Json::Object(members) => Some(members@),
            _ => None,
        }
    }

    /// `value.get(key)?.as_str()`: the text of the string member `key`.
    pub open spec fn get_str_spec(self, key: Seq<char>) -> Option<Seq<char>> {
        match self.get_spec(key) {
            Some(v) => v.str_spec(),
            None => None,
        }
    }

    /// The text of the string member `key` of an object.
    pub fn get_str(&self, key: &str) -> (r: Option<&str>)
        ensures
            match r {
                Some(s) => self.get_str_spec(key@) == Some(s@),
                None => self.get_str_spec(key@) is None,
            },
    {
        match self.get(key) {
            Some(v) => v.as_str(),
            None => None,
        }
    }

    /// The member `key` of an object.
    pub fn get(&self, key: &str) -> (r: Option<&Json>)
        ensures
            match r {
                Some(v) => self.get_spec(key@) == Some(*v),
                None => self.get_spec(key@) is None,
            },
    {
        match self {
            Json::Object(members) => {
                let k = String::from_str(key);
                let n = members.len();
                let mut i: usize = 0;
                assert(members@.subrange(0, n as int) =~= members@);
                while i < n
                    invariant
                        n == members@.len(),
                        i <= n,
                        k@ == key@,
                        self.get_spec(key@) == member_lookup(
                            members@.subrange(i as int, n as int),
                            key@,
                        ),
                    decreases n - i,
                {
                    let ghost rest = members@.subrange(i as int, n as int);
                    assert(rest.drop_first() =~= members@.subrange(i + 1, n as int));
                    assert(rest[0] == members@[i as int]);
                    if members[i].name == k {
                        return Some(&members[i].value);
                    }
                    i = i + 1;
                }
                None
            },
            _ => None,
        }
    }

    /// The text of a string value.
    pub fn as_str(&self) -> (r: Option<&str>)
        ensures
            match r {
                Some(s) => self.str_spec() == Some(s@),
                None => self.str_spec() is None,
            },
    {
        match self {
            Json::Str(s) => Some(s.as_str()),
            _ => None,
        }
    }

    /// The members of an object value.
    pub fn as_object(&self) -> (r: Option<&Vec<JsonMember>>)
        ensures
            match r {
                Some(m) => self.members_spec() == Some(m@),
                None => self.members_spec() is None,
            },
    {
        match self {
            Json::Object(members) => Some(members),
            _ => None,
        }
    }
}

} // verus!
