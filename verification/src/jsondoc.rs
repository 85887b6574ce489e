use vstd::prelude::*;

verus! {

/// A structured query document held as plain values: everything the engine
/// reads of a parsed JSON text.
#[derive(Debug)]
pub enum JsonData {
    Null,
    Bool(bool),
    /// A number, kept as its rendered text; no field of the query format is
    /// numeric.
    Num(String),
    Str(String),
    Arr(Vec<JsonData>),
    Obj(Vec<(String, JsonData)>),
}

#[verifier::external_type_specification]
#[verifier::external_body]
pub struct ExJsonValue(json::JsonValue);

/// The document that `json::parse` yields for a text, as plain data; `None`
/// when the text is rejected. The answer depends on the text alone.
pub uninterp spec fn json_doc(text: Seq<char>) -> Option<JsonData>;

/// Converts a parsed `json::JsonValue` into the engine's own document type,
/// one arm per variant, moving the contents over. It shares the trust of
/// `parse_json` below, whose contract covers the composition.
#[verifier::external_body]
fn convert_json(v: &json::JsonValue) -> JsonData {
    match v {
        json::JsonValue::Null => JsonData::Null,
        json::JsonValue::Boolean(b) => JsonData::Bool(*b),
        json::JsonValue::Short(s) => JsonData::Str(s.as_str().to_string()),
        json::JsonValue::String(s) => JsonData::Str(s.clone()),
        json::JsonValue::Number(n) => JsonData::Num(format!("{}", n)),
        json::JsonValue::Array(items) => JsonData::Arr(items.iter().map(convert_json).collect()),
        json::JsonValue::Object(o) => JsonData::Obj(
            o.iter().map(|(k, val)| (k.to_string(), convert_json(val))).collect(),
        ),
    }
}

/// Relies on `json::parse`: a text either parses to one document or is
/// rejected, by the text alone.
#[verifier::external_body]
pub(crate) fn parse_json(text: &str) -> (r: Option<JsonData>)
    ensures
        r == json_doc(text@),
{
    match json::parse(text) {
        Ok(v) => Some(convert_json(&v)),
        Err(_) => None,
    }
}

/// The position of the first entry with this key, if any.
pub open spec fn key_index(entries: Seq<(String, JsonData)>, key: Seq<char>) -> Option<int>
    decreases entries.len(),
{
    if entries.len() == 0 {
        None
    } else if entries[0].0@ == key {
        Some(0)
    } else {
        match key_index(entries.drop_first(), key) {
            Some(i) => Some(i + 1),
            None => None,
        }
    }
}

/// The member of an object under this key; `None` of any other document.
pub open spec fn jget(v: JsonData, key: Seq<char>) -> Option<JsonData> {
    match v {
        JsonData::Obj(entries) => match key_index(entries@, key) {
            Some(i) => Some(entries@[i].1),
            None => None,
        },
        _ => None,
    }
}

/// The string member of an object under this key; `None` when absent or not
/// a string.
pub open spec fn jget_str(v: JsonData, key: Seq<char>) -> Option<Seq<char>> {
    match jget(v, key) {
        Some(JsonData::Str(s)) => Some(s@),
        _ => None,
    }
}

pub proof fn lemma_key_index_found(entries: Seq<(String, JsonData)>, key: Seq<char>, i: int)
    requires
        0 <= i < entries.len(),
        entries[i].0@ == key,
        forall|j: int| #![trigger entries[j]] 0 <= j < i ==> entries[j].0@ != key,
    ensures
        key_index(entries, key) == Some(i),
    decreases i,
{
    if i > 0 {
        assert(entries[0].0@ != key);
        assert forall|j: int|
            #![trigger entries.drop_first()[j]]
            0 <= j < i - 1 implies entries.drop_first()[j].0@ != key by {
            assert(entries.drop_first()[j] == entries[j + 1]);
        }
        assert(entries.drop_first()[i - 1] == entries[i]);
        lemma_key_index_found(entries.drop_first(), key, i - 1);
    }
}

pub proof fn lemma_key_index_none(entries: Seq<(String, JsonData)>, key: Seq<char>)
    requires
        forall|j: int|
            #![trigger entries[j]]
            0 <= j < entries.len() ==> entries[j].0@ != key,
    ensures
        key_index(entries, key) is None,
    decreases entries.len(),
{
    if entries.len() > 0 {
        assert(entries[0].0@ != key);
        assert forall|j: int|
            #![trigger entries.drop_first()[j]]
            0 <= j < entries.drop_first().len() implies entries.drop_first()[j].0@ != key by {
            assert(entries.drop_first()[j] == entries[j + 1]);
        }
        lemma_key_index_none(entries.drop_first(), key);
    }
}

pub proof fn lemma_key_index_bounds(entries: Seq<(String, JsonData)>, key: Seq<char>)
    ensures
        (match key_index(entries, key) {
            Some(i) => 0 <= i < entries.len() && entries[i].0@ == key,
            None => true,
        }),
    decreases entries.len(),
{
    if entries.len() > 0 && entries[0].0@ != key {
        lemma_key_index_bounds(entries.drop_first(), key);
        if key_index(entries.drop_first(), key) is Some {
            let i = key_index(entries.drop_first(), key).unwrap();
            assert(entries.drop_first()[i] == entries[i + 1]);
        }
    }
}

/// Looks a key up in an object's entries; the executable side of
/// `key_index`.
pub fn find_key(entries: &Vec<(String, JsonData)>, key: &String) -> (r: Option<usize>)
    ensures
        (match r {
            Some(i) => i < entries@.len() && key_index(entries@, key@) == Some(i as int),
            None => key_index(entries@, key@) is None,
        }),
{
    let mut i: usize = 0;
    while i < entries.len()
        invariant
            i <= entries@.len(),
            forall|j: int| #![trigger entries@[j]] 0 <= j < i ==> entries@[j].0@ != key@,
        decreases entries@.len() - i,
    {
        if entries[i].0 == *key {
            proof {
                lemma_key_index_found(entries@, key@, i as int);
            }
            return Some(i);
        }
        i += 1;
    }
    proof {
        lemma_key_index_none(entries@, key@);
    }
    None
}

/// The member of an object document under this key; the executable side of
/// `jget`.
pub fn get_member<'a>(v: &'a JsonData, key: &str) -> (r: Option<&'a JsonData>)
    ensures
        (match r {
            Some(x) => jget(*v, key@) == Some(*x),
            None => jget(*v, key@) is None,
        }),
{
    match v {
        JsonData::Obj(entries) => {
            let k = key.to_owned();
            match find_key(entries, &k) {
                Some(i) => Some(&entries[i].1),
                None => None,
            }
        },
        _ => None,
    }
}

/// The string member of an object document under this key, cloned out.
pub fn get_str_member(v: &JsonData, key: &str) -> (r: Option<String>)
    ensures
        (match r {
            Some(s) => jget_str(*v, key@) == Some(s@),
            None => jget_str(*v, key@) is None,
        }),
{
    match get_member(v, key) {
        Some(JsonData::Str(s)) => Some(s.clone()),
        _ => None,
    }
}

} // verus!
