//! JSON values, as far as the catalog reads them.

use crate::text::same_text;
use vstd::prelude::*;

verus! {

/// A JSON value.
pub enum Json {
    Null,
    Bool(bool),
    /// An integer that fits an unsigned 64-bit number.
    Unsigned(u64),
    /// Any other number: negative, too large or with a fraction.
    OtherNumber,
    Text(String),
    Array(Vec<Json>),
    Object(Vec<Member>),
}

/// One named entry of an object.
pub struct Member {
    pub name: String,
    pub value: Json,
}

/// The value of the first entry from `from` on that has the name `name`.
pub open spec fn entry_from(members: Seq<Member>, name: Seq<char>, from: int) -> Option<Json>
    decreases members.len() - from,
{
    if from < 0 || from >= members.len() {
        None
    } else if members[from].name@ == name {
        Some(members[from].value)
    } else {
        entry_from(members, name, from + 1)
    }
}

impl Json {
    /// The entry `name` of an object; other values have none.
    pub open spec fn entry(self, name: Seq<char>) -> Option<Json> {
        match self {
            Json::Object(members) => entry_from(members@, name, 0),
            _ => None,
        }
    }

    /// The text of a JSON string.
    pub open spec fn text(self) -> Option<Seq<char>> {
        match self {
            Json::Text(s) => Some(s@),
            _ => None,
        }
    }

    /// The number, where it is an unsigned 64-bit one.
    pub open spec fn unsigned(self) -> Option<u64> {
        match self {
            Json::Unsigned(n) => Some(n),
            _ => None,
        }
    }

    /// The items of an array.
    pub open spec fn items(self) -> Option<Seq<Json>> {
        match self {
            Json::Array(v) => Some(v@),
            _ => None,
        }
    }

    /// The entry `inner` of the entry `outer`.
    pub open spec fn nested(self, outer: Seq<char>, inner: Seq<char>) -> Option<Json> {
        match self.entry(outer) {
            Some(v) => v.entry(inner),
            None => None,
        }
    }

    /// Looks up an entry of an object.
    pub fn get(&self, name: &str) -> (r: Option<&Json>)
        ensures
            match r {
                Some(v) => self.entry(name@) == Some(*v),
                None => self.entry(name@) is None,
            },
    {
        match self {
            Json::Object(members) => {
                let mut i: usize = 0;
                while i < members.len()
                    invariant
                        i <= members.len(),
                        *self matches Json::Object(m) && m == *members,
                        self.entry(name@) == entry_from(members@, name@, i as int),
                    decreases members.len() - i,
                {
                    if same_text(members[i].name.as_str(), name) {
                        return Some(&members[i].value);
                    }
                    i += 1;
                }
                None
            },
            _ => None,
        }
    }

    /// Looks up an entry of an entry.
    pub fn get_nested(&self, outer: &str, inner: &str) -> (r: Option<&Json>)
        ensures
            match r {
                Some(v) => self.nested(outer@, inner@) == Some(*v),
                None => self.nested(outer@, inner@) is None,
            },
    {
        match self.get(outer) {
            Some(v) => v.get(inner),
            None => None,
        }
    }

    /// The text of a JSON string.
    pub fn as_str(&self) -> (r: Option<&str>)
        ensures
            match r {
                Some(s) => self.text() == Some(s@),
                None => self.text() is None,
            },
    {
        match self {
            Json::Text(s) => Some(s.as_str()),
            _ => None,
        }
    }

    /// The number, where it is an unsigned 64-bit one.
    pub fn as_u64(&self) -> (r: Option<u64>)
        ensures
            r == self.unsigned(),
    {
        match self {
            Json::Unsigned(n) => Some(*n),
            _ => None,
        }
    }

    /// The items of an array.
    pub fn as_array(&self) -> (r: Option<&Vec<Json>>)
        ensures
            match r {
                Some(v) => self.items() == Some(v@),
                None => self.items() is None,
            },
    {
        match self {
            Json::Array(v) => Some(v),
            _ => None,
        }
    }
}

/// The text of an optional value.
pub open spec fn text_of(v: Option<Json>) -> Option<Seq<char>> {
    match v {
        Some(j) => j.text(),
        None => None,
    }
}

/// The unsigned number of an optional value.
pub open spec fn unsigned_of(v: Option<Json>) -> Option<u64> {
    match v {
        Some(j) => j.unsigned(),
        None => None,
    }
}

/// The items of an optional value.
pub open spec fn items_of(v: Option<Json>) -> Option<Seq<Json>> {
    match v {
        Some(j) => j.items(),
        None => None,
    }
}

/// Reads the text of an optional value.
pub fn str_of(v: Option<&Json>) -> (r: Option<&str>)
    ensures
        match r {
            Some(s) => v is Some && v->0.text() == Some(s@),
            None => v is None || v->0.text() is None,
        },
{
    match v {
        Some(j) => j.as_str(),
        None => None,
    }
}

/// Reads the unsigned number of an optional value.
pub fn u64_of(v: Option<&Json>) -> (r: Option<u64>)
    ensures
        match v {
            Some(j) => r == j.unsigned(),
            None => r is None,
        },
{
    match v {
        Some(j) => j.as_u64(),
        None => None,
    }
}

/// Reads the items of an optional value.
pub fn array_of(v: Option<&Json>) -> (r: Option<&Vec<Json>>)
    ensures
        match r {
            Some(a) => v is Some && v->0.items() == Some(a@),
            None => v is None || v->0.items() is None,
        },
{
    match v {
        Some(j) => j.as_array(),
        None => None,
    }
}

/// An object holds the value `v` under `name`: in its first entry of that name.
pub open spec fn holds(j: Json, name: Seq<char>, v: Json) -> bool {
    j matches Json::Object(m) && exists|i: int|
        {
            &&& 0 <= i < m@.len()
            &&& (#[trigger] m@[i]).name@ == name
            &&& m@[i].value == v
            &&& forall|k: int| 0 <= k < i ==> (#[trigger] m@[k]).name@ != name
        }
}

/// No string stands under `name`.
pub open spec fn no_string(j: Json, name: Seq<char>) -> bool {
    forall|s: String| !#[trigger] holds(j, name, Json::Text(s))
}

/// No string stands under `inner` of what stands under `outer`.
pub open spec fn no_nested_string(j: Json, outer: Seq<char>, inner: Seq<char>) -> bool {
    forall|o: Json, s: String|
        !(#[trigger] holds(j, outer, o) && #[trigger] holds(o, inner, Json::Text(s)))
}

/// No unsigned number stands under `name`.
pub open spec fn no_number(j: Json, name: Seq<char>) -> bool {
    forall|n: u64| !#[trigger] holds(j, name, Json::Unsigned(n))
}

/// The entry found from a position on is the first one of its name from there on.
proof fn lemma_entry_from(members: Seq<Member>, name: Seq<char>, from: int)
    requires
        0 <= from,
    ensures
        match entry_from(members, name, from) {
            Some(v) => exists|i: int|
                {
                    &&& from <= i < members.len()
                    &&& (#[trigger] members[i]).name@ == name
                    &&& members[i].value == v
                    &&& forall|k: int| from <= k < i ==> (#[trigger] members[k]).name@ != name
                },
            None => forall|k: int|
                from <= k < members.len() ==> (#[trigger] members[k]).name@ != name,
        },
    decreases members.len() - from,
{
    if from < members.len() {
        if members[from].name@ == name {
            assert(members[from].value == members[from].value);
        } else {
            lemma_entry_from(members, name, from + 1);
            if let Some(v) = entry_from(members, name, from + 1) {
                let i = choose|i: int|
                    {
                        &&& from + 1 <= i < members.len()
                        &&& (#[trigger] members[i]).name@ == name
                        &&& members[i].value == v
                        &&& forall|k: int|
                            from + 1 <= k < i ==> (#[trigger] members[k]).name@ != name
                    };
                assert(members[i].name@ == name);
            }
        }
    }
}

/// Looking a name up gives the value that the object holds under it: that value and no other,
/// and nothing only where the object holds none.
pub proof fn law_entry_is_what_the_object_holds(j: Json, name: Seq<char>)
    ensures
        match j.entry(name) {
            Some(v) => holds(j, name, v) && forall|w: Json| #[trigger] holds(j, name, w) ==> w == v,
            None => forall|w: Json| !#[trigger] holds(j, name, w),
        },
{
    if let Json::Object(members) = j {
        lemma_entry_from(members@, name, 0);
        if let Some(v) = j.entry(name) {
            let i = choose|i: int|
                {
                    &&& 0 <= i < members@.len()
                    &&& (#[trigger] members@[i]).name@ == name
                    &&& members@[i].value == v
                    &&& forall|k: int| 0 <= k < i ==> (#[trigger] members@[k]).name@ != name
                };
            assert(members@[i].name@ == name);
        }
    }
}

/// Looking a name up in what stands under another name gives what is held there.
pub proof fn law_nested_entry_is_what_is_held(j: Json, outer: Seq<char>, inner: Seq<char>)
    ensures
        match j.nested(outer, inner) {
            Some(v) => (exists|o: Json| #[trigger] holds(j, outer, o) && holds(o, inner, v))
                && forall|o: Json, w: Json| #[trigger]
                holds(j, outer, o) && #[trigger] holds(o, inner, w) ==> w == v,
            None => forall|o: Json, w: Json|
                !(#[trigger] holds(j, outer, o) && #[trigger] holds(o, inner, w)),
        },
{
    law_entry_is_what_the_object_holds(j, outer);
    if let Some(o) = j.entry(outer) {
        law_entry_is_what_the_object_holds(o, inner);
    }
}

/// A string reads as its characters, an unsigned number as itself and an array as its items;
/// nothing else reads as one of these.
pub proof fn law_values_read_as_themselves(j: Json, s: String, n: u64, items: Vec<Json>)
    ensures
        Json::Text(s).text() == Some(s@),
        Json::Unsigned(n).unsigned() == Some(n),
        Json::Array(items).items() == Some(items@),
        j !is Text ==> j.text() is None,
        j !is Unsigned ==> j.unsigned() is None,
        j !is Array ==> j.items() is None,
        text_of(Some(j)) == j.text(),
        text_of(None) is None,
        unsigned_of(Some(j)) == j.unsigned(),
        unsigned_of(None) is None,
        items_of(Some(j)) == j.items(),
        items_of(None) is None,
{
}

} // verus!
