//! Structured output: the JSON values that requests are answered with.

use crate::text::same_text;
use vstd::prelude::*;
use vstd::string::*;

verus! {

/// A JSON value. The fields of an object are kept in the order in which they were added.
#[derive(Debug, PartialEq)]
pub enum Json {
    Null,
    Bool(bool),
    Int(i64),
    Uint(u64),
    Text(String),
    List(Vec<Json>),
    Object(Vec<(String, Json)>),
}

/// What a [`Json`] value stands for.
pub enum JsonValue {
    Null,
    Bool(bool),
    Number(int),
    Text(Seq<char>),
    List(Seq<JsonValue>),
    Object(Seq<(Seq<char>, JsonValue)>),
}

/// The value of the first field with the name `key`.
pub open spec fn field_in(fields: Seq<(Seq<char>, JsonValue)>, key: Seq<char>) -> Option<JsonValue>
    decreases fields.len(),
{
    if fields.len() == 0 {
        None
    } else if fields[0].0 == key {
        Some(fields[0].1)
    } else {
        field_in(fields.drop_first(), key)
    }
}

impl JsonValue {
    /// The field of an object with the name `key`; no other value has fields.
    pub open spec fn field(self, key: Seq<char>) -> Option<JsonValue> {
        match self {
            JsonValue::Object(fields) => field_in(fields, key),
            _ => None,
        }
    }

    /// The text, if the value is one.
    pub open spec fn text(self) -> Option<Seq<char>> {
        match self {
            JsonValue::Text(s) => Some(s),
            _ => None,
        }
    }

    /// The truth value, if the value is one.
    pub open spec fn truth(self) -> Option<bool> {
        match self {
            JsonValue::Bool(b) => Some(b),
            _ => None,
        }
    }

    /// The number, if the value is one and fits in a `u64`.
    pub open spec fn unsigned(self) -> Option<u64> {
        match self {
            JsonValue::Number(n) => if 0 <= n <= u64::MAX {
                Some(n as u64)
            } else {
                None
            },
            _ => None,
        }
    }
}

/// The values that a list of [`Json`] stands for.
pub open spec fn list_values(items: Seq<Json>) -> Seq<JsonValue> {
    Seq::new(items.len(), |i: int| items[i]@)
}

/// The fields that a list of named [`Json`] stands for.
pub open spec fn field_values(items: Seq<(String, Json)>) -> Seq<(Seq<char>, JsonValue)> {
    Seq::new(items.len(), |i: int| (items[i].0@, items[i].1@))
}

impl Json {
    /// What the value stands for.
    pub open spec fn view(&self) -> JsonValue
        decreases self,
    {
        match self {
            Json::Null => JsonValue::Null,
            Json::Bool(b) => JsonValue::Bool(*b),
            Json::Int(n) => JsonValue::Number(*n as int),
            Json::Uint(n) => JsonValue::Number(*n as int),
            Json::Text(s) => JsonValue::Text(s@),
            Json::List(items) => JsonValue::List(
                Seq::new(
                    items@.len(),
                    |i: int|
                        if 0 <= i < items@.len() {
                            items@[i].view()
                        } else {
                            JsonValue::Null
                        },
                ),
            ),
            Json::Object(items) => JsonValue::Object(
                Seq::new(
                    items@.len(),
                    |i: int|
                        if 0 <= i < items@.len() {
                            (items@[i].0@, items@[i].1.view())
                        } else {
                            (Seq::empty(), JsonValue::Null)
                        },
                ),
            ),
        }
    }

    proof fn lemma_list(items: Vec<Json>)
        ensures
            Json::List(items)@ == JsonValue::List(list_values(items@)),
    {
        assert(Json::List(items)@->List_0 =~= list_values(items@));
    }

    proof fn lemma_object(items: Vec<(String, Json)>)
        ensures
            Json::Object(items)@ == JsonValue::Object(field_values(items@)),
    {
        assert(Json::Object(items)@->Object_0 =~= field_values(items@));
    }

    /// The text `s`.
    pub fn text(s: &str) -> (r: Json)
        ensures
            r@ == JsonValue::Text(s@),
    {
        Json::Text(s.to_owned())
    }

    /// The list of `items`.
    pub fn list(items: Vec<Json>) -> (r: Json)
        ensures
            r@ == JsonValue::List(list_values(items@)),
    {
        proof {
            Json::lemma_list(items);
        }
        Json::List(items)
    }

    /// The list of the texts in `items`.
    pub fn texts(items: &Vec<String>) -> (r: Json)
        ensures
            r@ == JsonValue::List(
                Seq::new(items@.len(), |i: int| JsonValue::Text(items@[i]@)),
            ),
    {
        let mut out: Vec<Json> = Vec::new();
        let mut i: usize = 0;
        while i < items.len()
            invariant
                i <= items@.len(),
                list_values(out@) == Seq::new(i as nat, |j: int| JsonValue::Text(items@[j]@)),
            decreases items@.len() - i,
        {
            let item = Json::text(items[i].as_str());
            assert(list_values(out@.push(item)) =~= list_values(out@).push(item@));
            out.push(item);
            i += 1;
        }
        Json::list(out)
    }

    /// The field with the name `key`, if the value is an object that has it.
    pub fn get(&self, key: &str) -> (r: Option<&Json>)
        ensures
            match r {
                Some(v) => self@.field(key@) == Some(v@),
                None => self@.field(key@) is None,
            },
    {
        match self {
            Json::Object(items) => {
                let ghost fields = field_values(items@);
                proof {
                    assert(self@->Object_0 =~= fields);
                }
                let mut i: usize = 0;
                assert(fields.skip(0) =~= fields);
                while i < items.len()
                    invariant
                        i <= items@.len(),
                        fields == field_values(items@),
                        field_in(fields.skip(i as int), key@) == field_in(fields, key@),
                        self@.field(key@) == field_in(fields, key@),
                    decreases items@.len() - i,
                {
                    let ghost rest = fields.skip(i as int);
                    if same_text(items[i].0.as_str(), key) {
                        assert(rest[0] == (items@[i as int].0@, items@[i as int].1@));
                        return Some(&items[i].1);
                    }
                    assert(rest.drop_first() =~= fields.skip(i + 1));
                    i += 1;
                }
                assert(fields.skip(i as int).len() == 0);
                None
            },
            _ => None,
        }
    }

    /// The text, if the value is one.
    pub fn as_str(&self) -> (r: Option<&str>)
        ensures
            match r {
                Some(s) => self@.text() == Some(s@),
                None => self@.text() is None,
            },
    {
        match self {
            Json::Text(s) => Some(s.as_str()),
            _ => None,
        }
    }

    /// The truth value, if the value is one.
    pub fn as_bool(&self) -> (r: Option<bool>)
        ensures
            r == self@.truth(),
    {
        match self {
            Json::Bool(b) => Some(*b),
            _ => None,
        }
    }

    /// The number, if the value is one and fits in a `u64`.
    pub fn as_u64(&self) -> (r: Option<u64>)
        ensures
            r == self@.unsigned(),
    {
        match self {
            Json::Uint(n) => Some(*n),
            Json::Int(n) => if *n >= 0 {
                Some(*n as u64)
            } else {
                None
            },
            _ => None,
        }
    }

    /// The items, if the value is a list.
    pub fn as_array(&self) -> (r: Option<&Vec<Json>>)
        ensures
            match r {
                Some(items) => self@ == JsonValue::List(list_values(items@)),
                None => !(self@ is List),
            },
    {
        match self {
            Json::List(items) => {
                assert(self@->List_0 =~= list_values(items@));
                Some(items)
            },
            _ => None,
        }
    }
}

/// The fields of an object that is being put together.
pub struct Fields {
    items: Vec<(String, Json)>,
}

impl View for Fields {
    type V = Seq<(Seq<char>, JsonValue)>;

    closed spec fn view(&self) -> Seq<(Seq<char>, JsonValue)> {
        field_values(self.items@)
    }
}

impl Fields {
    /// No fields.
    pub fn new() -> (r: Self)
        ensures
            r@ == Seq::<(Seq<char>, JsonValue)>::empty(),
    {
        let r = Fields { items: Vec::new() };
        assert(r@ =~= Seq::<(Seq<char>, JsonValue)>::empty());
        r
    }

    /// Adds the field `key` with the value `value`.
    pub fn put(&mut self, key: &str, value: Json)
        ensures
            final(self)@ == old(self)@.push((key@, value@)),
    {
        let name = key.to_owned();
        assert(field_values(self.items@.push((name, value))) =~= field_values(self.items@).push(
            (name@, value@),
        ));
        self.items.push((name, value));
    }

    /// Adds the field `key` with the text `value`.
    pub fn put_text(&mut self, key: &str, value: &str)
        ensures
            final(self)@ == old(self)@.push((key@, JsonValue::Text(value@))),
    {
        self.put(key, Json::text(value));
    }

    /// Adds the field `key` with the truth value `value`.
    pub fn put_bool(&mut self, key: &str, value: bool)
        ensures
            final(self)@ == old(self)@.push((key@, JsonValue::Bool(value))),
    {
        self.put(key, Json::Bool(value));
    }

    /// Adds the field `key` with the number `value`.
    pub fn put_u64(&mut self, key: &str, value: u64)
        ensures
            final(self)@ == old(self)@.push((key@, JsonValue::Number(value as int))),
    {
        self.put(key, Json::Uint(value));
    }

    /// Adds the field `key` with the number `value`, or null.
    pub fn put_i32(&mut self, key: &str, value: Option<i32>)
        ensures
            final(self)@ == old(self)@.push((key@, optional_number(value))),
    {
        match value {
            Some(n) => self.put(key, Json::Int(n as i64)),
            None => self.put(key, Json::Null),
        }
    }

    /// The object with these fields.
    pub fn object(self) -> (r: Json)
        ensures
            r@ == JsonValue::Object(self@),
    {
        proof {
            Json::lemma_object(self.items);
        }
        Json::Object(self.items)
    }
}

/// A number, or null where there is none.
pub open spec fn optional_number(n: Option<i32>) -> JsonValue {
    match n {
        Some(n) => JsonValue::Number(n as int),
        None => JsonValue::Null,
    }
}

/// A sequence contains its items.
pub proof fn lemma_items<T>(s: Seq<T>)
    ensures
        forall|i: int| 0 <= i < s.len() ==> s.contains(#[trigger] s[i]),
{
}

/// A field of an object is found by its name, wherever it stands; the first of
/// several with one name counts. A name that no field has finds nothing.
pub proof fn fields_are_found(
    before: Seq<(Seq<char>, JsonValue)>,
    key: Seq<char>,
    value: JsonValue,
    behind: Seq<(Seq<char>, JsonValue)>,
)
    requires
        forall|i: int| 0 <= i < before.len() ==> (#[trigger] before[i]).0 != key,
    ensures
        JsonValue::Object(before + seq![(key, value)] + behind).field(key) == Some(value),
        JsonValue::Object(before).field(key) is None,
    decreases before.len(),
{
    let all = before + seq![(key, value)] + behind;
    if before.len() == 0 {
        assert(all[0] == (key, value));
    } else {
        let rest = before.drop_first();
        assert(before[0].0 != key);
        assert(all[0] == before[0]);
        assert(all.drop_first() =~= rest + seq![(key, value)] + behind);
        assert forall|i: int| 0 <= i < rest.len() implies (#[trigger] rest[i]).0 != key by {
            assert(rest[i] == before[i + 1]);
        }
        fields_are_found(rest, key, value, behind);
    }
}

} // verus!
