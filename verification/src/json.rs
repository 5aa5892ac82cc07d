//! A plain model of a JSON document, as the library reads configuration,
//! manifests and claims. Numbers keep the text `serde_json` renders for them.

use vstd::prelude::*;

use crate::text::{chars_eq, chars_of, decimal_int, parse_i64};

verus! {

/// A JSON value.
#[derive(Debug, PartialEq)]
pub enum JsonValue {
    Null,
    Bool(bool),
    /// A number, as the decimal text `serde_json` prints for it.
    Number(String),
    Str(String),
    Array(Vec<JsonValue>),
    /// Members in document order; keys are unique.
    Object(Vec<(String, JsonValue)>),
}

/// A JSON document as mathematics sees it: strings by their characters.
pub enum JsonModel {
    Null,
    Bool(bool),
    Number(Seq<char>),
    Str(Seq<char>),
    Array(Seq<JsonModel>),
    Object(Seq<(Seq<char>, JsonModel)>),
}

/// The model of a value.
pub open spec fn model_of(v: JsonValue) -> JsonModel
    decreases v,
{
    match v {
        JsonValue::Null => JsonModel::Null,
        JsonValue::Bool(b) => JsonModel::Bool(b),
        JsonValue::Number(t) => JsonModel::Number(t@),
        JsonValue::Str(s) => JsonModel::Str(s@),
        JsonValue::Array(items) => JsonModel::Array(models_of(items@)),
        JsonValue::Object(fields) => JsonModel::Object(members_of(fields@)),
    }
}

/// The models of array items.
pub open spec fn models_of(items: Seq<JsonValue>) -> Seq<JsonModel>
    decreases items,
{
    if items.len() == 0 {
        Seq::empty()
    } else {
        seq![model_of(items[0])] + models_of(items.subrange(1, items.len() as int))
    }
}

/// The value of the first member named `key` among `members`.
pub open spec fn member_value(members: Seq<(Seq<char>, JsonModel)>, key: Seq<char>) -> Option<JsonModel>
    decreases members.len(),
{
    if members.len() == 0 {
        None
    } else if members[0].0 == key {
        Some(members[0].1)
    } else {
        member_value(members.drop_first(), key)
    }
}

/// The first member named `key` is the one at `i` when no member before it
/// has that name.
pub proof fn lemma_member_at(members: Seq<(Seq<char>, JsonModel)>, i: int, key: Seq<char>)
    requires
        0 <= i < members.len(),
        members[i].0 == key,
        forall|j: int| 0 <= j < i ==> #[trigger] members[j].0 != key,
    ensures
        member_value(members, key) == Some(members[i].1),
    decreases i,
{
    if i > 0 {
        let rest = members.drop_first();
        assert forall|j: int| 0 <= j < i - 1 implies #[trigger] rest[j].0 != key by {
            assert(rest[j] == members[j + 1]);
        }
        lemma_member_at(rest, i - 1, key);
    }
}

/// The value of member `key` of an object; `None` for any other value.
pub open spec fn model_member(m: JsonModel, key: Seq<char>) -> Option<JsonModel> {
    match m {
        JsonModel::Object(members) => member_value(members, key),
        _ => None,
    }
}

/// The models of object members.
pub open spec fn members_of(fields: Seq<(String, JsonValue)>) -> Seq<(Seq<char>, JsonModel)>
    decreases fields,
{
    if fields.len() == 0 {
        Seq::empty()
    } else {
        seq![(fields[0].0@, model_of(fields[0].1))] + members_of(
            fields.subrange(1, fields.len() as int),
        )
    }
}

/// The value stored under `key` among `fields` (first match).
pub open spec fn field_lookup(fields: Seq<(String, JsonValue)>, key: Seq<char>) -> Option<
    JsonValue,
>
    decreases fields.len(),
{
    if fields.len() == 0 {
        None
    } else if fields[0].0@ == key {
        Some(fields[0].1)
    } else {
        field_lookup(fields.drop_first(), key)
    }
}

impl JsonValue {
    /// `Value::get` with a string key: the member of an object, `None` for
    /// anything else.
    pub open spec fn spec_get(self, key: Seq<char>) -> Option<JsonValue> {
        match self {
            JsonValue::Object(fields) => field_lookup(fields@, key),
            _ => None,
        }
    }

    /// `Value::as_str`.
    pub open spec fn spec_as_str(self) -> Option<Seq<char>> {
        match self {
            JsonValue::Str(s) => Some(s@),
            _ => None,
        }
    }

    /// `Value::as_bool`.
    pub open spec fn spec_as_bool(self) -> Option<bool> {
        match self {
            JsonValue::Bool(b) => Some(b),
            _ => None,
        }
    }

    /// `Value::as_i64`: a number whose text is an integer in range.
    pub open spec fn spec_as_i64(self) -> Option<i64> {
        match self {
            JsonValue::Number(t) => crate::text::parse_i64_spec(t@),
            _ => None,
        }
    }

    pub fn get(&self, key: &str) -> (r: Option<&JsonValue>)
        ensures
            match r {
                Some(v) => self.spec_get(key@) == Some(*v),
                None => self.spec_get(key@) is None,
            },
    {
        match self {
            JsonValue::Object(fields) => {
                let k = chars_of(key);
                let mut i: usize = 0;
                assert(fields@.skip(0) =~= fields@);
                while i < fields.len()
                    invariant
                        i <= fields.len(),
                        k@ == key@,
                        self.spec_get(key@) == field_lookup(fields@.skip(i as int), key@),
                    decreases fields.len() - i,
                {
                    let name = chars_of(fields[i].0.as_str());
                    assert(fields@.skip(i as int)[0] == fields@[i as int]);
                    if chars_eq(name.as_slice(), k.as_slice()) {
                        assert(field_lookup(fields@.skip(i as int), key@) == Some(fields@[i as int].1));
                        let found = &fields[i].1;
                        assert(*found == fields@[i as int].1);
                        return Some(found);
                    }
                    assert(fields@.skip(i as int).drop_first() =~= fields@.skip(i + 1));
                    i = i + 1;
                }
                None
            },
            _ => None,
        }
    }

    pub fn as_str(&self) -> (r: Option<&String>)
        ensures
            match r {
                Some(s) => self.spec_as_str() == Some(s@) && *self == JsonValue::Str(*s),
                None => self.spec_as_str() is None,
            },
    {
        match self {
            JsonValue::Str(s) => Some(s),
            _ => None,
        }
    }

    pub fn as_bool(&self) -> (r: Option<bool>)
        ensures
            r == self.spec_as_bool(),
    {
        match self {
            JsonValue::Bool(b) => Some(*b),
            _ => None,
        }
    }

    pub fn as_i64(&self) -> (r: Option<i64>)
        ensures
            r == self.spec_as_i64(),
    {
        match self {
            JsonValue::Number(t) => {
                let v = chars_of(t.as_str());
                parse_i64(v.as_slice())
            },
            _ => None,
        }
    }
}


/// The string member `key` of `j`, if `j` is an object holding a string there.
pub open spec fn json_str(j: JsonValue, key: Seq<char>) -> Option<Seq<char>> {
    match j.spec_get(key) {
        Some(v) => v.spec_as_str(),
        None => None,
    }
}

/// The boolean member `key` of `j`.
pub open spec fn json_bool(j: JsonValue, key: Seq<char>) -> Option<bool> {
    match j.spec_get(key) {
        Some(v) => v.spec_as_bool(),
        None => None,
    }
}

/// The integer member `key` of `j`.
pub open spec fn json_i64(j: JsonValue, key: Seq<char>) -> Option<i64> {
    match j.spec_get(key) {
        Some(v) => v.spec_as_i64(),
        None => None,
    }
}

/// The string member `key` of the object `j[section]`.
pub open spec fn json_section_str(j: JsonValue, section: Seq<char>, key: Seq<char>) -> Option<
    Seq<char>,
> {
    match j.spec_get(section) {
        Some(o) => json_str(o, key),
        None => None,
    }
}

/// The boolean member `key` of the object `j[section]`.
pub open spec fn json_section_bool(j: JsonValue, section: Seq<char>, key: Seq<char>) -> Option<
    bool,
> {
    match j.spec_get(section) {
        Some(o) => json_bool(o, key),
        None => None,
    }
}

/// The string items of a JSON array, in order, skipping the others.
pub open spec fn string_items(items: Seq<JsonValue>) -> Seq<Seq<char>>
    decreases items.len(),
{
    if items.len() == 0 {
        Seq::empty()
    } else {
        match items.last() {
            JsonValue::Str(s) => string_items(items.drop_last()).push(s@),
            _ => string_items(items.drop_last()),
        }
    }
}

/// The string items of the array `j[key]`; `None` when it is not an array.
pub open spec fn json_string_array(j: JsonValue, key: Seq<char>) -> Option<Seq<Seq<char>>> {
    match j.spec_get(key) {
        Some(JsonValue::Array(items)) => Some(string_items(items@)),
        _ => None,
    }
}

/// `j.get(key).and_then(Value::as_str)`.
pub fn get_str<'a>(j: &'a JsonValue, key: &str) -> (r: Option<&'a String>)
    ensures
        match r {
            Some(s) => json_str(*j, key@) == Some(s@),
            None => json_str(*j, key@) is None,
        },
{
    match j.get(key) {
        Some(v) => v.as_str(),
        None => None,
    }
}

/// `j.get(key).and_then(Value::as_bool)`.
pub fn get_bool(j: &JsonValue, key: &str) -> (r: Option<bool>)
    ensures
        r == json_bool(*j, key@),
{
    match j.get(key) {
        Some(v) => v.as_bool(),
        None => None,
    }
}

/// `j.get(key).and_then(Value::as_i64)`.
pub fn get_i64(j: &JsonValue, key: &str) -> (r: Option<i64>)
    ensures
        r == json_i64(*j, key@),
{
    match j.get(key) {
        Some(v) => v.as_i64(),
        None => None,
    }
}

/// The string items of an array, cloned.
pub fn strings_in(items: &Vec<JsonValue>) -> (r: Vec<String>)
    ensures
        crate::text::string_views(r@) == string_items(items@),
{
    let mut r: Vec<String> = Vec::new();
    let mut i: usize = 0;
    while i < items.len()
        invariant
            i <= items.len(),
            crate::text::string_views(r@) == string_items(items@.take(i as int)),
        decreases items.len() - i,
    {
        assert(items@.take(i + 1).drop_last() =~= items@.take(i as int));
        assert(items@.take(i + 1).last() == items@[i as int]);
        match &items[i] {
            JsonValue::Str(s) => {
                let ghost old_r = r@;
                r.push(s.clone());
                assert(crate::text::string_views(r@) =~= crate::text::string_views(old_r).push(
                    s@,
                ));
            },
            _ => {},
        }
        i = i + 1;
    }
    assert(items@.take(items.len() as int) =~= items@);
    r
}

/// The string items of the array `j[key]`.
pub fn get_string_array(j: &JsonValue, key: &str) -> (r: Option<Vec<String>>)
    ensures
        match r {
            Some(v) => json_string_array(*j, key@) == Some(crate::text::string_views(v@)),
            None => json_string_array(*j, key@) is None,
        },
{
    match j.get(key) {
        Some(JsonValue::Array(items)) => Some(strings_in(items)),
        _ => None,
    }
}

/// Appending a member extends the members' models by its model.
pub proof fn lemma_members_push(fields: Seq<(String, JsonValue)>, m: (String, JsonValue))
    ensures
        members_of(fields.push(m)) == members_of(fields).push((m.0@, model_of(m.1))),
    decreases fields.len(),
{
    if fields.len() == 0 {
        assert(fields.push(m).subrange(1, 1) =~= Seq::<(String, JsonValue)>::empty());
        assert(members_of(fields.push(m).subrange(1, 1)) =~= Seq::<(Seq<char>, JsonModel)>::empty());
        assert(members_of(fields.push(m)) =~= seq![(m.0@, model_of(m.1))]);
    } else {
        let rest = fields.subrange(1, fields.len() as int);
        lemma_members_push(rest, m);
        assert(fields.push(m).subrange(1, fields.len() + 1int) =~= rest.push(m));
        assert(members_of(fields.push(m)) =~= members_of(fields).push((m.0@, model_of(m.1))));
    }
}

/// Appending an item extends the items' models by its model.
pub proof fn lemma_models_push(items: Seq<JsonValue>, v: JsonValue)
    ensures
        models_of(items.push(v)) == models_of(items).push(model_of(v)),
    decreases items.len(),
{
    if items.len() == 0 {
        assert(items.push(v).subrange(1, 1) =~= Seq::<JsonValue>::empty());
        assert(models_of(items.push(v).subrange(1, 1)) =~= Seq::<JsonModel>::empty());
        assert(models_of(items.push(v)) =~= seq![model_of(v)]);
    } else {
        let rest = items.subrange(1, items.len() as int);
        lemma_models_push(rest, v);
        assert(items.push(v).subrange(1, items.len() + 1int) =~= rest.push(v));
        assert(models_of(items.push(v)) =~= models_of(items).push(model_of(v)));
    }
}

/// Add the member `key: value` to an object's members.
pub fn push_member(fields: &mut Vec<(String, JsonValue)>, key: &str, value: JsonValue)
    ensures
        members_of(final(fields)@) == members_of(old(fields)@).push((key@, model_of(value))),
{
    let ghost before = fields@;
    let m = (String::from_str(key), value);
    fields.push(m);
    proof {
        lemma_members_push(before, m);
    }
}

/// Add an item to an array's items.
pub fn push_item(items: &mut Vec<JsonValue>, value: JsonValue)
    ensures
        models_of(final(items)@) == models_of(old(items)@).push(model_of(value)),
{
    let ghost before = items@;
    items.push(value);
    proof {
        lemma_models_push(before, value);
    }
}

/// A JSON string.
pub fn json_string(s: &str) -> (r: JsonValue)
    ensures
        model_of(r) == JsonModel::Str(s@),
{
    JsonValue::Str(String::from_str(s))
}

/// A JSON integer, as `serde_json` prints it.
pub fn json_integer(n: i64) -> (r: JsonValue)
    ensures
        model_of(r) == JsonModel::Number(decimal_int(n as int)),
{
    let digits = crate::text::i64_decimal(n);
    JsonValue::Number(crate::text::string_of(digits.as_slice()))
}

/// The model of an array of strings.
pub open spec fn str_models(items: Seq<Seq<char>>) -> Seq<JsonModel> {
    items.map_values(|s: Seq<char>| JsonModel::Str(s))
}

/// A JSON array of strings.
pub fn json_string_list(items: &Vec<String>) -> (r: JsonValue)
    ensures
        model_of(r) == JsonModel::Array(str_models(crate::text::string_views(items@))),
{
    let mut out: Vec<JsonValue> = Vec::new();
    let mut i: usize = 0;
    while i < items.len()
        invariant
            i <= items.len(),
            models_of(out@) == str_models(crate::text::string_views(items@.take(i as int))),
        decreases items.len() - i,
    {
        push_item(&mut out, json_string(items[i].as_str()));
        assert(crate::text::string_views(items@.take(i + 1)) =~= crate::text::string_views(
            items@.take(i as int),
        ).push(items@[i as int]@));
        assert(models_of(out@) =~= str_models(crate::text::string_views(items@.take(i + 1))));
        i = i + 1;
    }
    assert(items@.take(items.len() as int) =~= items@);
    JsonValue::Array(out)
}

impl JsonValue {
    /// A copy of the document.
    pub fn deep_clone(&self) -> (r: JsonValue)
        ensures
            model_of(r) == model_of(*self),
        decreases self,
    {
        match self {
            JsonValue::Null => JsonValue::Null,
            JsonValue::Bool(b) => JsonValue::Bool(*b),
            JsonValue::Number(t) => JsonValue::Number(String::from_str(t.as_str())),
            JsonValue::Str(s) => JsonValue::Str(String::from_str(s.as_str())),
            JsonValue::Array(items) => {
                let mut out: Vec<JsonValue> = Vec::new();
                let mut i: usize = 0;
                while i < items.len()
                    invariant
                        i <= items.len(),
                        models_of(out@) == models_of(items@.take(i as int)),
                        *self == JsonValue::Array(*items),
                    decreases items.len() - i,
                {
                    assert(decreases_to!(*self => (*self)->Array_0));
                    assert((*self)->Array_0 == *items);
                    assert(decreases_to!(*items => items@));
                    assert(decreases_to!(items@ => items@[i as int]));
                    let c = items[i].deep_clone();
                    push_item(&mut out, c);
                    proof {
                        assert(items@.take(i + 1) =~= items@.take(i as int).push(items@[i as int]));
                        lemma_models_push(items@.take(i as int), items@[i as int]);
                    }
                    i = i + 1;
                }
                assert(items@.take(items.len() as int) =~= items@);
                JsonValue::Array(out)
            },
            JsonValue::Object(fields) => {
                let mut out: Vec<(String, JsonValue)> = Vec::new();
                let mut i: usize = 0;
                while i < fields.len()
                    invariant
                        i <= fields.len(),
                        members_of(out@) == members_of(fields@.take(i as int)),
                        *self == JsonValue::Object(*fields),
                    decreases fields.len() - i,
                {
                    assert(decreases_to!(*self => (*self)->Object_0));
                    assert((*self)->Object_0 == *fields);
                    assert(decreases_to!(*fields => fields@));
                    assert(decreases_to!(fields@ => fields@[i as int]));
                    assert(decreases_to!(fields@[i as int] => fields@[i as int].1));
                    let c = fields[i].1.deep_clone();
                    push_member(&mut out, fields[i].0.as_str(), c);
                    proof {
                        assert(fields@.take(i + 1) =~= fields@.take(i as int).push(fields@[i as int]));
                        lemma_members_push(fields@.take(i as int), fields@[i as int]);
                    }
                    i = i + 1;
                }
                assert(fields@.take(fields.len() as int) =~= fields@);
                JsonValue::Object(out)
            },
        }
    }
}

} // verus!
