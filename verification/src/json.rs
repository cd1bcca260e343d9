//! A JSON document model that the protocol messages are built from and read
//! through. Numbers are kept as serde_json keeps them: a non-negative
//! integer, a negative integer, or a fraction (whose value the library never
//! reads, so only its kind is kept).

use vstd::prelude::*;

verus! {

/// A JSON value.
#[derive(Debug, PartialEq, Eq)]
pub enum JsonValue {
    Null,
    Bool(bool),
    /// A non-negative integer.
    UInt(u64),
    /// A negative integer.
    NegInt(i64),
    /// A number with a fractional part or an exponent.
    Fraction,
    Str(String),
    Array(Vec<JsonValue>),
    /// An object's members, in order, each key once.
    Object(Vec<(String, JsonValue)>),
}

/// The mathematical value of a JSON document.
pub enum Json {
    Null,
    Bool(bool),
    UInt(u64),
    NegInt(i64),
    Fraction,
    Str(Seq<char>),
    Array(Seq<Json>),
    Object(Seq<(Seq<char>, Json)>),
}

/// The values of a sequence of documents.
pub open spec fn values_of(items: Seq<JsonValue>) -> Seq<Json>
    decreases items,
{
    if items.len() == 0 {
        Seq::empty()
    } else {
        seq![value_of(items[0])] + values_of(items.subrange(1, items.len() as int))
    }
}

/// The values of a sequence of object members.
pub open spec fn members_of(fields: Seq<(String, JsonValue)>) -> Seq<(Seq<char>, Json)>
    decreases fields,
{
    if fields.len() == 0 {
        Seq::empty()
    } else {
        seq![(fields[0].0@, value_of(fields[0].1))] + members_of(
            fields.subrange(1, fields.len() as int),
        )
    }
}

/// The value of a document.
pub open spec fn value_of(v: JsonValue) -> Json
    decreases v,
{
    match v {
        JsonValue::Null => Json::Null,
        JsonValue::Bool(b) => Json::Bool(b),
        JsonValue::UInt(n) => Json::UInt(n),
        JsonValue::NegInt(n) => Json::NegInt(n),
        JsonValue::Fraction => Json::Fraction,
        JsonValue::Str(s) => Json::Str(s@),
        JsonValue::Array(items) => Json::Array(values_of(items@)),
        JsonValue::Object(fields) => Json::Object(members_of(fields@)),
    }
}

proof fn lemma_values_of_pointwise(a: Seq<JsonValue>, b: Seq<JsonValue>)
    requires
        a.len() == b.len(),
        forall|j: int| 0 <= j < a.len() ==> value_of(#[trigger] a[j]) == value_of(b[j]),
    ensures
        values_of(a) == values_of(b),
    decreases a.len(),
{
    if a.len() > 0 {
        let a1 = a.subrange(1, a.len() as int);
        let b1 = b.subrange(1, b.len() as int);
        assert forall|j: int| 0 <= j < a1.len() implies value_of(#[trigger] a1[j]) == value_of(b1[j]) by {
            assert(a1[j] == a[j + 1] && b1[j] == b[j + 1]);
        }
        lemma_values_of_pointwise(a1, b1);
        assert(value_of(a[0]) == value_of(b[0]));
    }
}

proof fn lemma_members_of_pointwise(a: Seq<(String, JsonValue)>, b: Seq<(String, JsonValue)>)
    requires
        a.len() == b.len(),
        forall|j: int|
            0 <= j < a.len() ==> (#[trigger] a[j]).0@ == b[j].0@ && value_of(a[j].1) == value_of(b[j].1),
    ensures
        members_of(a) == members_of(b),
    decreases a.len(),
{
    if a.len() > 0 {
        let a1 = a.subrange(1, a.len() as int);
        let b1 = b.subrange(1, b.len() as int);
        assert forall|j: int| 0 <= j < a1.len() implies (#[trigger] a1[j]).0@ == b1[j].0@ && value_of(
            a1[j].1,
        ) == value_of(b1[j].1) by {
            assert(a1[j] == a[j + 1] && b1[j] == b[j + 1]);
        }
        lemma_members_of_pointwise(a1, b1);
        assert(a[0].0@ == b[0].0@ && value_of(a[0].1) == value_of(b[0].1));
    }
}

proof fn lemma_members_of_push(fields: Seq<(String, JsonValue)>, e: (String, JsonValue))
    ensures
        members_of(fields.push(e)) == members_of(fields).push((e.0@, value_of(e.1))),
    decreases fields.len(),
{
    let pushed = fields.push(e);
    if fields.len() > 0 {
        let rest = fields.subrange(1, fields.len() as int);
        assert(pushed.subrange(1, pushed.len() as int) =~= rest.push(e));
        lemma_members_of_push(rest, e);
        assert(members_of(pushed) =~= seq![(fields[0].0@, value_of(fields[0].1))] + members_of(
            rest.push(e),
        ));
    } else {
        assert(pushed.subrange(1, pushed.len() as int) =~= Seq::<(String, JsonValue)>::empty());
        assert(members_of(Seq::<(String, JsonValue)>::empty()) == Seq::<(Seq<char>, Json)>::empty());
        assert(members_of(pushed) =~= seq![(e.0@, value_of(e.1))]);
    }
}

/// An empty object has no members.
pub proof fn lemma_members_of_empty()
    ensures
        members_of(Seq::<(String, JsonValue)>::empty()) == Seq::<(Seq<char>, Json)>::empty(),
{
}

/// Appends the member `key: value` to an object's members.
pub fn push_member(fields: &mut Vec<(String, JsonValue)>, key: &str, value: JsonValue)
    ensures
        members_of(final(fields)@) == members_of(old(fields)@).push((key@, value_of(value))),
{
    let ghost before = fields@;
    let k = key.to_owned();
    proof {
        lemma_members_of_push(before, (k, value));
    }
    fields.push((k, value));
}

/// The members of an object document (empty for any other document).
pub open spec fn members(j: Json) -> Seq<(Seq<char>, Json)> {
    match j {
        Json::Object(m) => m,
        _ => Seq::empty(),
    }
}

/// The value of the first member of `fields` whose key is `key`.
pub open spec fn find_member(fields: Seq<(String, JsonValue)>, key: Seq<char>) -> Option<JsonValue>
    decreases fields.len(),
{
    if fields.len() == 0 {
        None
    } else if fields[0].0@ == key {
        Some(fields[0].1)
    } else {
        find_member(fields.drop_first(), key)
    }
}

proof fn lemma_find_member(fields: Seq<(String, JsonValue)>, key: Seq<char>, i: int)
    requires
        0 <= i <= fields.len(),
        forall|j: int| 0 <= j < i ==> fields[j].0@ != key,
    ensures
        i < fields.len() && fields[i].0@ == key ==> find_member(fields, key) == Some(fields[i].1),
        i == fields.len() ==> find_member(fields, key) is None,
    decreases i,
{
    if i > 0 {
        let rest = fields.drop_first();
        assert forall|j: int| 0 <= j < i - 1 implies rest[j].0@ != key by {
            assert(rest[j] == fields[j + 1]);
        }
        lemma_find_member(rest, key, i - 1);
    }
}

impl JsonValue {
    /// The value under `key` when this is an object (the first such member);
    /// `None` for a missing key or a value that is no object.
    pub open spec fn member(self, key: Seq<char>) -> Option<JsonValue> {
        match self {
            JsonValue::Object(fields) => find_member(fields@, key),
            _ => None,
        }
    }

    /// The string this value is, if it is one.
    pub open spec fn text(self) -> Option<Seq<char>> {
        match self {
            JsonValue::Str(s) => Some(s@),
            _ => None,
        }
    }

    /// The value under `key` when this is an object.
    pub fn get<'a>(&'a self, key: &str) -> (res: Option<&'a JsonValue>)
        ensures
            match self.member(key@) {
                Some(v) => res matches Some(r) && *r == v,
                None => res is None,
            },
    {
        match self {
            JsonValue::Object(fields) => {
                let mut i: usize = 0;
                while i < fields.len()
                    invariant
                        i <= fields@.len(),
                        self.member(key@) == find_member(fields@, key@),
                        forall|j: int| 0 <= j < i ==> fields@[j].0@ != key@,
                    decreases fields@.len() - i,
                {
                    if text_eq(fields[i].0.as_str(), key) {
                        proof {
                            lemma_find_member(fields@, key@, i as int);
                        }
                        return Some(&fields[i].1);
                    }
                    i = i + 1;
                }
                proof {
                    lemma_find_member(fields@, key@, i as int);
                }
                None
            },
            _ => None,
        }
    }

    /// The string this value is, if it is one.
    pub fn as_str(&self) -> (res: Option<&str>)
        ensures
            match self.text() {
                Some(s) => res matches Some(r) && r@ == s,
                None => res is None,
            },
    {
        match self {
            JsonValue::Str(s) => Some(s.as_str()),
            _ => None,
        }
    }

    /// A copy of this value.
    pub fn copy(&self) -> (res: JsonValue)
        ensures
            value_of(res) == value_of(*self),
        decreases self,
    {
        match self {
            JsonValue::Null => JsonValue::Null,
            JsonValue::Bool(b) => JsonValue::Bool(*b),
            JsonValue::UInt(n) => JsonValue::UInt(*n),
            JsonValue::NegInt(n) => JsonValue::NegInt(*n),
            JsonValue::Fraction => JsonValue::Fraction,
            JsonValue::Str(s) => JsonValue::Str(s.clone()),
            JsonValue::Array(items) => {
                let mut out: Vec<JsonValue> = Vec::new();
                let mut i: usize = 0;
                while i < items.len()
                    invariant
                        i <= items@.len(),
                        *self == JsonValue::Array(*items),
                        out@.len() == i,
                        forall|j: int| 0 <= j < i ==> value_of(#[trigger] out@[j]) == value_of(items@[j]),
                    decreases items@.len() - i,
                {
                    assert(decreases_to!(*self => (*self)->Array_0));
                    assert(decreases_to!((*self)->Array_0 => (*self)->Array_0@));
                    assert(decreases_to!((*self)->Array_0@ => (*self)->Array_0@[i as int]));
                    out.push(items[i].copy());
                    i = i + 1;
                }
                proof {
                    lemma_values_of_pointwise(out@, items@);
                }
                JsonValue::Array(out)
            },
            JsonValue::Object(fields) => {
                let mut out: Vec<(String, JsonValue)> = Vec::new();
                let mut i: usize = 0;
                while i < fields.len()
                    invariant
                        i <= fields@.len(),
                        *self == JsonValue::Object(*fields),
                        out@.len() == i,
                        forall|j: int|
                            0 <= j < i ==> (#[trigger] out@[j]).0@ == fields@[j].0@ && value_of(
                                out@[j].1,
                            ) == value_of(fields@[j].1),
                    decreases fields@.len() - i,
                {
                    assert(decreases_to!(*self => (*self)->Object_0));
                    assert(decreases_to!((*self)->Object_0 => (*self)->Object_0@));
                    assert(decreases_to!((*self)->Object_0@ => (*self)->Object_0@[i as int]));
                    assert(decreases_to!((*self)->Object_0@[i as int] => (*self)->Object_0@[i as int].1));
                    let v = fields[i].1.copy();
                    out.push((fields[i].0.clone(), v));
                    i = i + 1;
                }
                proof {
                    lemma_members_of_pointwise(out@, fields@);
                }
                JsonValue::Object(out)
            },
        }
    }

    /// The value as a `u64`, if it is a non-negative integer.
    pub fn as_u64(&self) -> (res: Option<u64>)
        ensures
            res == (match self {
                JsonValue::UInt(n) => Some(*n),
                _ => None::<u64>,
            }),
    {
        match self {
            JsonValue::UInt(n) => Some(*n),
            _ => None,
        }
    }
}

/// Whether two strings hold the same characters.
pub fn text_eq(a: &str, b: &str) -> (res: bool)
    ensures
        res == (a@ == b@),
{
    a.to_owned() == b.to_owned()
}

} // verus!
