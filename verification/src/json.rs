//! A tree of plain values standing for decoded JSON data: the shape the
//! metadata decoder reads. Object members keep their declaration order.
use vstd::prelude::*;

verus! {

/// A JSON-like value as plain data. Numbers carry the unsigned values the
/// metadata schema uses; a number outside that range decodes as `Other`.
#[derive(Debug)]
pub enum JsonValue {
    Null,
    Bool(bool),
    Num(u64),
    Str(String),
    Arr(Vec<JsonValue>),
    Obj(Vec<(String, JsonValue)>),
    /// A value the metadata schema has no use for, such as a fractional or
    /// negative number.
    Other,
}

impl JsonValue {
    /// The value of the first member named `key`, if any.
    pub fn get<'a>(&'a self, key: &str) -> (r: Option<&'a JsonValue>)
        ensures
            (*self) is Obj ==> (match spec_obj_get((*self)->Obj_0@, key@) {
                Some(i) => r is Some && *r->Some_0 == (*self)->Obj_0@[i].1,
                None => r is None,
            }),
            !((*self) is Obj) ==> r is None,
    {
        match self {
            JsonValue::Obj(members) => {
                let ghost ms = members@;
                let mut i: usize = 0;
                proof {
                    assert(ms.skip(0) =~= ms);
                    lemma_obj_get_bounds(ms, key@);
                }
                while i < members.len()
                    invariant
                        (*self) is Obj,
                        (*self)->Obj_0@ == ms,
                        ms == members@,
                        0 <= i <= ms.len(),
                        (match spec_obj_get(ms, key@) {
                            Some(j) => i <= j && spec_obj_get(ms.skip(i as int), key@) == Some(
                                j - i,
                            ),
                            None => spec_obj_get(ms.skip(i as int), key@) is None,
                        }),
                    decreases ms.len() - i,
                {
                    proof {
                        assert(ms.skip(i as int)[0] == ms[i as int]);
                        assert(ms.skip(i as int).drop_first() =~= ms.skip(i + 1));
                        lemma_obj_get_bounds(ms.skip(i + 1), key@);
                    }
                    let pair = &members[i];
                    if crate::text::str_eq(pair.0.as_str(), key) {
                        proof {
                            assert(*pair == ms[i as int]);
                            assert(ms.skip(i as int)[0].0@ == key@);
                            assert(spec_obj_get(ms.skip(i as int), key@) == Some(0int));
                            assert(spec_obj_get(ms, key@) == Some(i as int));
                            let msv = (*self)->Obj_0@;
                            assert(msv == ms);
                            let si = spec_obj_get(msv, key@)->Some_0;
                            assert(si == i as int);
                            assert(pair.1 == msv[si].1);
                        }
                        return Some(&pair.1);
                    }
                    i += 1;
                }
                proof {
                    lemma_obj_get_bounds(ms, key@);
                }
                None
            },
            _ => None,
        }
    }
}

#[verifier::external_type_specification]
#[verifier::external_body]
pub struct ExValue(serde_json::Value);

/// The JSON tree a text parses to, where it is well-formed JSON, or nothing
/// where it is not. Parsing is a function of the text alone.
pub uninterp spec fn parsed_json(s: Seq<char>) -> Option<JsonValue>;

/// Relies on serde_json::Value: carries each variant of a parsed JSON value
/// over to the library's own tree, one for one. A number that is not an
/// unsigned integer has no place in the metadata schema and becomes `Other`.
#[verifier::external_body]
fn json_of_value(v: &serde_json::Value) -> JsonValue {
    match v {
        serde_json::Value::Null => JsonValue::Null,
        serde_json::Value::Bool(b) => JsonValue::Bool(*b),
        serde_json::Value::Number(n) => n.as_u64().map_or(JsonValue::Other, JsonValue::Num),
        serde_json::Value::String(s) => JsonValue::Str(s.clone()),
        serde_json::Value::Array(a) => JsonValue::Arr(a.iter().map(json_of_value).collect()),
        serde_json::Value::Object(m) => JsonValue::Obj(
            m.iter().map(|(k, val)| (k.clone(), json_of_value(val))).collect(),
        ),
    }
}

/// Relies on serde_json::from_str: parses a text into a JSON value, or fails
/// where the text is not well-formed JSON. Object members keep their
/// declaration order.
#[verifier::external_body]
pub(crate) fn parse_json(s: &str) -> (r: Option<JsonValue>)
    ensures
        r == parsed_json(s@),
{
    match serde_json::from_str::<serde_json::Value>(s) {
        Ok(v) => Some(json_of_value(&v)),
        Err(_) => None,
    }
}

/// Position of the first member of an object named `key`.
pub open spec fn spec_obj_get(members: Seq<(String, JsonValue)>, key: Seq<char>) -> Option<int>
    decreases members.len(),
{
    if members.len() == 0 {
        None
    } else if members[0].0@ == key {
        Some(0)
    } else {
        match spec_obj_get(members.drop_first(), key) {
            Some(i) => Some(i + 1),
            None => None,
        }
    }
}

pub proof fn lemma_obj_get_bounds(members: Seq<(String, JsonValue)>, key: Seq<char>)
    ensures
        match spec_obj_get(members, key) {
            Some(j) => 0 <= j < members.len() && members[j].0@ == key,
            None => true,
        },
    decreases members.len(),
{
    if members.len() == 0 {
    } else if members[0].0@ == key {
    } else {
        lemma_obj_get_bounds(members.drop_first(), key);
    }
}

} // verus!
