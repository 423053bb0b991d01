//! Loosely-typed JSON values: the open field bags that entities carry and the
//! payloads that events embed.

use vstd::prelude::*;

verus! {

/// A JSON value held as plain data. Numbers keep their decimal text.
#[derive(Debug)]
pub enum JsonValue {
    Null,
    Bool(bool),
    Number(String),
    Str(String),
    Array(Vec<JsonValue>),
    Object(Vec<(String, JsonValue)>),
}

/// The mathematical model of a `JsonValue`.
pub enum JsonModel {
    Null,
    Bool(bool),
    Number(Seq<char>),
    Str(Seq<char>),
    Array(Seq<JsonModel>),
    Object(Seq<(Seq<char>, JsonModel)>),
}

/// Models of a sequence of values, element by element.
pub open spec fn models_of(items: Seq<JsonValue>) -> Seq<JsonModel>
    decreases items,
{
    if items.len() == 0 {
        Seq::empty()
    } else {
        models_of(items.drop_last()).push(items.last().model())
    }
}

/// Models of a sequence of named fields, field by field.
pub open spec fn fields_model(fields: Seq<(String, JsonValue)>) -> Seq<(Seq<char>, JsonModel)>
    decreases fields,
{
    if fields.len() == 0 {
        Seq::empty()
    } else {
        fields_model(fields.drop_last()).push((fields.last().0@, fields.last().1.model()))
    }
}

impl JsonValue {
    pub open spec fn model(self) -> JsonModel
        decreases self,
    {
        match self {
            JsonValue::Null => JsonModel::Null,
            JsonValue::Bool(b) => JsonModel::Bool(b),
            JsonValue::Number(n) => JsonModel::Number(n@),
            JsonValue::Str(s) => JsonModel::Str(s@),
            JsonValue::Array(items) => JsonModel::Array(models_of(items@)),
            JsonValue::Object(fields) => JsonModel::Object(fields_model(fields@)),
        }
    }

    /// A copy with the same model.
    pub fn deep_copy(&self) -> (r: JsonValue)
        ensures
            r.model() == self.model(),
        decreases self,
    {
        match self {
            JsonValue::Null => JsonValue::Null,
            JsonValue::Bool(b) => JsonValue::Bool(*b),
            JsonValue::Number(n) => JsonValue::Number(n.clone()),
            JsonValue::Str(s) => JsonValue::Str(s.clone()),
            JsonValue::Array(items) => {
                let mut out: Vec<JsonValue> = Vec::new();
                let mut i: usize = 0;
                while i < items.len()
                    invariant
                        i <= items@.len(),
                        *self == JsonValue::Array(*items),
                        out@.len() == i,
                        models_of(out@) == models_of(items@.subrange(0, i as int)),
                    decreases items@.len() - i,
                {
                    proof {
                        assert(decreases_to!(*self => self->Array_0));
                        assert(decreases_to!(*self => items@));
                        assert(decreases_to!(items@ => items@[i as int]));
                    }
                    let c = items[i].deep_copy();
                    proof {
                        assert(items@.subrange(0, i + 1).drop_last() == items@.subrange(0, i as int));
                    }
                    let ghost before = out@;
                    out.push(c);
                    proof {
                        assert(out@.drop_last() == before);
                    }
                    i += 1;
                }
                proof {
                    assert(items@.subrange(0, i as int) == items@);
                }
                JsonValue::Array(out)
            }
            JsonValue::Object(fields) => {
                let mut out: Vec<(String, JsonValue)> = Vec::new();
                let mut i: usize = 0;
                while i < fields.len()
                    invariant
                        i <= fields@.len(),
                        *self == JsonValue::Object(*fields),
                        out@.len() == i,
                        fields_model(out@) == fields_model(fields@.subrange(0, i as int)),
                    decreases fields@.len() - i,
                {
                    proof {
                        assert(decreases_to!(*self => self->Object_0));
                        assert(decreases_to!(*self => fields@));
                        assert(decreases_to!(fields@ => fields@[i as int]));
                        assert(decreases_to!(fields@[i as int] => fields@[i as int].1));
                    }
                    let v = fields[i].1.deep_copy();
                    let k = fields[i].0.clone();
                    proof {
                        assert(fields@.subrange(0, i + 1).drop_last() == fields@.subrange(0, i as int));
                    }
                    let ghost before = out@;
                    out.push((k, v));
                    proof {
                        assert(out@.drop_last() == before);
                    }
                    i += 1;
                }
                proof {
                    assert(fields@.subrange(0, i as int) == fields@);
                }
                JsonValue::Object(out)
            }
        }
    }
}


/// A copy of a sequence of values with the same models.
pub fn copy_values(items: &Vec<JsonValue>) -> (r: Vec<JsonValue>)
    ensures
        models_of(r@) == models_of(items@),
{
    let mut out: Vec<JsonValue> = Vec::new();
    let mut i: usize = 0;
    while i < items.len()
        invariant
            i <= items@.len(),
            out@.len() == i,
            models_of(out@) == models_of(items@.subrange(0, i as int)),
        decreases items@.len() - i,
    {
        let c = items[i].deep_copy();
        proof {
            assert(items@.subrange(0, i + 1).drop_last() == items@.subrange(0, i as int));
        }
        let ghost before = out@;
        out.push(c);
        proof {
            assert(out@.drop_last() == before);
        }
        i += 1;
    }
    proof {
        assert(items@.subrange(0, i as int) == items@);
    }
    out
}

/// The value of the first field named `key`, if any.
pub open spec fn lookup(fields: Seq<(Seq<char>, JsonModel)>, key: Seq<char>) -> Option<JsonModel>
    decreases fields.len(),
{
    if fields.len() == 0 {
        None
    } else if fields[0].0 == key {
        Some(fields[0].1)
    } else {
        lookup(fields.drop_first(), key)
    }
}

/// Whether the characters of `a` and `b` are the same.
pub fn str_eq(a: &str, b: &str) -> (r: bool)
    ensures
        r == (a@ == b@),
{
    let n = a.unicode_len();
    if n != b.unicode_len() {
        return false;
    }
    let mut i: usize = 0;
    while i < n
        invariant
            n == a@.len(),
            n == b@.len(),
            i <= n,
            a@.subrange(0, i as int) == b@.subrange(0, i as int),
        decreases n - i,
    {
        if a.get_char(i) != b.get_char(i) {
            return false;
        }
        proof {
            assert(a@.subrange(0, i + 1) == a@.subrange(0, i as int).push(a@[i as int]));
            assert(b@.subrange(0, i + 1) == b@.subrange(0, i as int).push(b@[i as int]));
        }
        i += 1;
    }
    proof {
        assert(a@ == a@.subrange(0, n as int));
        assert(b@ == b@.subrange(0, n as int));
    }
    true
}


pub proof fn lemma_fields_model_index(fields: Seq<(String, JsonValue)>, i: int)
    requires
        0 <= i < fields.len(),
    ensures
        fields_model(fields).len() == fields.len(),
        fields_model(fields)[i] == (fields[i].0@, fields[i].1.model()),
    decreases fields.len(),
{
    if i < fields.len() - 1 {
        lemma_fields_model_index(fields.drop_last(), i);
    } else {
        lemma_fields_model_len(fields.drop_last());
    }
}

pub proof fn lemma_fields_model_len(fields: Seq<(String, JsonValue)>)
    ensures
        fields_model(fields).len() == fields.len(),
    decreases fields.len(),
{
    if fields.len() > 0 {
        lemma_fields_model_len(fields.drop_last());
    }
}

pub proof fn lemma_models_of_index(items: Seq<JsonValue>, i: int)
    requires
        0 <= i < items.len(),
    ensures
        models_of(items).len() == items.len(),
        models_of(items)[i] == items[i].model(),
    decreases items.len(),
{
    lemma_models_of_len(items);
    if i < items.len() - 1 {
        lemma_models_of_index(items.drop_last(), i);
    }
}

pub proof fn lemma_models_of_len(items: Seq<JsonValue>)
    ensures
        models_of(items).len() == items.len(),
    decreases items.len(),
{
    if items.len() > 0 {
        lemma_models_of_len(items.drop_last());
    }
}

/// The index of the first field named `key`.
pub fn find_field(fields: &Vec<(String, JsonValue)>, key: &str) -> (r: Option<usize>)
    ensures
        match r {
            Some(i) => i < fields@.len() && fields@[i as int].0@ == key@
                && lookup(fields_model(fields@), key@) == Some(fields@[i as int].1.model()),
            None => lookup(fields_model(fields@), key@) is None,
        },
{
    let mut i: usize = 0;
    proof {
        lemma_fields_model_len(fields@);
        assert(fields_model(fields@).subrange(0, fields@.len() as int) == fields_model(fields@));
    }
    while i < fields.len()
        invariant
            i <= fields@.len(),
            fields_model(fields@).len() == fields@.len(),
            lookup(fields_model(fields@), key@) == lookup(fields_model(fields@).subrange(i as int, fields@.len() as int), key@),
        decreases fields@.len() - i,
    {
        let ghost rest = fields_model(fields@).subrange(i as int, fields@.len() as int);
        proof {
            lemma_fields_model_index(fields@, i as int);
            assert(rest[0] == fields_model(fields@)[i as int]);
            assert(rest.drop_first() == fields_model(fields@).subrange(i + 1, fields@.len() as int));
        }
        if str_eq(fields[i].0.as_str(), key) {
            return Some(i);
        }
        i += 1;
    }
    None
}

} // verus!
