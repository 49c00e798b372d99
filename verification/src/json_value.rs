//! JSON values held as plain data, and their compact JSON text.
use vstd::prelude::*;
use crate::json::{json_array, json_bool, json_object, json_string, member, push_json_string};
use crate::text::{owned, push_char};

verus! {

/// A JSON value. A number is held as the text that `serde_json` writes for
/// it; an object's members are held in increasing key order, each key
/// once, as `serde_json` keeps them.
#[derive(Debug)]
pub enum JsonValue {
    Null,
    Bool(bool),
    Number(String),
    Str(String),
    Array(Vec<JsonValue>),
    Object(Vec<(String, JsonValue)>),
}

/// The compact JSON text of a value.
pub open spec fn value_json(v: JsonValue) -> Seq<char>
    decreases v,
{
    match v {
        JsonValue::Null => "null"@,
        JsonValue::Bool(b) => json_bool(b),
        JsonValue::Number(n) => n@,
        JsonValue::Str(s) => json_string(s@),
        JsonValue::Array(items) => json_array(item_texts(items@)),
        JsonValue::Object(members) => json_object(member_texts(members@)),
    }
}

/// The texts of the items of an array.
pub open spec fn item_texts(items: Seq<JsonValue>) -> Seq<Seq<char>>
    decreases items,
{
    Seq::new(items.len(), |i: int| if 0 <= i < items.len() { value_json(items[i]) } else { Seq::empty() })
}

/// The member texts of an object.
pub open spec fn member_texts(members: Seq<(String, JsonValue)>) -> Seq<Seq<char>>
    decreases members,
{
    Seq::new(members.len(), |i: int| if 0 <= i < members.len() {
        member(members[i].0@, value_json(members[i].1))
    } else {
        Seq::empty()
    })
}

/// The compact JSON text of a value (see `value_json`).
pub fn render_value(v: &JsonValue) -> (r: String)
    ensures
        r@ == value_json(*v),
    decreases v,
{
    match v {
        JsonValue::Null => {
            proof {
                reveal_strlit("null");
            }
            owned("null")
        },
        JsonValue::Bool(b) => crate::json::bool_value(*b),
        JsonValue::Number(n) => n.clone(),
        JsonValue::Str(s) => crate::json::string_value(s.as_str()),
        JsonValue::Array(items) => {
            let mut texts: Vec<String> = Vec::new();
            let mut i: usize = 0;
            while i < items.len()
                invariant
                    *v == JsonValue::Array(*items),
                    i <= items.len(),
                    crate::ordering::views(texts@) == item_texts(items@).take(i as int),
                decreases items.len() - i,
            {
                proof {
                    assert(decreases_to!(*v => (*v)->Array_0));
                    assert(decreases_to!((*v)->Array_0 => (*v)->Array_0@));
                    assert(decreases_to!((*v)->Array_0@ => (*v)->Array_0@[i as int]));
                }
                let t = render_value(&items[i]);
                let ghost before = texts@;
                texts.push(t);
                proof {
                    assert(item_texts(items@)[i as int] == value_json(items@[i as int]));
                    assert(crate::ordering::views(texts@) =~= crate::ordering::views(before).push(value_json(items@[i as int])));
                    assert(crate::ordering::views(texts@) =~= item_texts(items@).take(i + 1));
                }
                i = i + 1;
            }
            proof {
                assert(item_texts(items@).take(items.len() as int) =~= item_texts(items@));
            }
            crate::json::array_value(&texts)
        },
        JsonValue::Object(members) => {
            let mut texts: Vec<String> = Vec::new();
            let mut i: usize = 0;
            while i < members.len()
                invariant
                    *v == JsonValue::Object(*members),
                    i <= members.len(),
                    crate::ordering::views(texts@) == member_texts(members@).take(i as int),
                decreases members.len() - i,
            {
                proof {
                    assert(decreases_to!(*v => (*v)->Object_0));
                    assert(decreases_to!((*v)->Object_0 => (*v)->Object_0@));
                    assert(decreases_to!((*v)->Object_0@ => (*v)->Object_0@[i as int]));
                    assert(decreases_to!((*v)->Object_0@[i as int] => (*v)->Object_0@[i as int].1));
                }
                let value = render_value(&members[i].1);
                crate::json::push_member(&mut texts, members[i].0.as_str(), value);
                proof {
                    assert(crate::ordering::views(texts@) =~= member_texts(members@).take(i + 1));
                }
                i = i + 1;
            }
            proof {
                assert(member_texts(members@).take(members.len() as int) =~= member_texts(members@));
            }
            crate::json::object_value(&texts)
        },
    }
}

/// A copy of a value, with the same JSON text.
pub fn copy_value(v: &JsonValue) -> (r: JsonValue)
    ensures
        value_json(r) == value_json(*v),
    decreases v,
{
    match v {
        JsonValue::Null => JsonValue::Null,
        JsonValue::Bool(b) => JsonValue::Bool(*b),
        JsonValue::Number(n) => JsonValue::Number(n.clone()),
        JsonValue::Str(x) => JsonValue::Str(x.clone()),
        JsonValue::Array(items) => {
            let mut copied: Vec<JsonValue> = Vec::new();
            let mut i: usize = 0;
            while i < items.len()
                invariant
                    *v == JsonValue::Array(*items),
                    i <= items.len(),
                    copied.len() == i,
                    forall|k: int| 0 <= k < i ==> value_json(#[trigger] copied@[k]) == value_json(items@[k]),
                decreases items.len() - i,
            {
                proof {
                    assert(decreases_to!(*v => (*v)->Array_0));
                    assert(decreases_to!((*v)->Array_0 => (*v)->Array_0@));
                    assert(decreases_to!((*v)->Array_0@ => (*v)->Array_0@[i as int]));
                }
                copied.push(copy_value(&items[i]));
                i = i + 1;
            }
            proof {
                assert(item_texts(copied@) =~= item_texts(items@));
            }
            JsonValue::Array(copied)
        },
        JsonValue::Object(members) => {
            let mut copied: Vec<(String, JsonValue)> = Vec::new();
            let mut i: usize = 0;
            while i < members.len()
                invariant
                    *v == JsonValue::Object(*members),
                    i <= members.len(),
                    copied.len() == i,
                    forall|k: int| 0 <= k < i ==> (#[trigger] copied@[k]).0@ == members@[k].0@
                        && value_json(copied@[k].1) == value_json(members@[k].1),
                decreases members.len() - i,
            {
                proof {
                    assert(decreases_to!(*v => (*v)->Object_0));
                    assert(decreases_to!((*v)->Object_0 => (*v)->Object_0@));
                    assert(decreases_to!((*v)->Object_0@ => (*v)->Object_0@[i as int]));
                    assert(decreases_to!((*v)->Object_0@[i as int] => (*v)->Object_0@[i as int].1));
                }
                let value = copy_value(&members[i].1);
                copied.push((members[i].0.clone(), value));
                i = i + 1;
            }
            proof {
                assert(member_texts(copied@) =~= member_texts(members@));
            }
            JsonValue::Object(copied)
        },
    }
}

} // verus!
