//! JSON values as the library reads and writes them, with the lookups that
//! `serde_json::Value` offers: a field by name (`Null` where there is none),
//! an array, an object, a string.
use vstd::prelude::*;

verus! {

/// A JSON value. Numbers keep their decimal text; objects keep their entries
/// in order, and a name is looked up at its first entry.
#[derive(Debug)]
pub enum JsonValue {
    Null,
    Bool(bool),
    Number(String),
    Str(String),
    Array(Vec<JsonValue>),
    Object(Vec<(String, JsonValue)>),
}

/// The value of the first entry named `key`.
pub open spec fn obj_get(es: Seq<(String, JsonValue)>, key: Seq<char>) -> Option<JsonValue>
    decreases es.len(),
{
    if es.len() == 0 {
        None
    } else if es[0].0@ == key {
        Some(es[0].1)
    } else {
        obj_get(es.drop_first(), key)
    }
}

/// `v[key]`: the field `key` of an object, and `Null` for a missing field or a
/// value that is not an object.
pub open spec fn field(v: JsonValue, key: Seq<char>) -> JsonValue {
    match v {
        JsonValue::Object(es) => match obj_get(es@, key) {
            Some(x) => x,
            None => JsonValue::Null,
        },
        _ => JsonValue::Null,
    }
}

/// `v.as_array()`.
pub open spec fn as_array(v: JsonValue) -> Option<Seq<JsonValue>> {
    match v {
        JsonValue::Array(a) => Some(a@),
        _ => None,
    }
}

/// `v.as_object()`.
pub open spec fn as_object(v: JsonValue) -> Option<Seq<(String, JsonValue)>> {
    match v {
        JsonValue::Object(es) => Some(es@),
        _ => None,
    }
}

/// `v.as_str()`.
pub open spec fn as_str(v: JsonValue) -> Option<Seq<char>> {
    match v {
        JsonValue::Str(s) => Some(s@),
        _ => None,
    }
}

/// The first element of `a`.
pub open spec fn first(a: Seq<JsonValue>) -> Option<JsonValue> {
    if a.len() > 0 {
        Some(a[0])
    } else {
        None
    }
}

/// Looks up the first entry named `key`.
pub fn entry<'a>(es: &'a Vec<(String, JsonValue)>, key: &str) -> (r: Option<&'a JsonValue>)
    ensures
        r matches Some(x) ==> obj_get(es@, key@) == Some(*x),
        r is None ==> obj_get(es@, key@) is None,
{
    let mut i: usize = 0;
    assert(es@.skip(0) == es@);
    while i < es.len()
        invariant
            i <= es@.len(),
            obj_get(es@, key@) == obj_get(es@.skip(i as int), key@),
        decreases es@.len() - i,
    {
        assert(es@.skip(i as int)[0] == es@[i as int]);
        assert(es@.skip(i as int).drop_first() == es@.skip(i + 1));
        if crate::text::eq_str(crate::text::chars_of(es[i].0.as_str()).as_slice(), key) {
            return Some(&es[i].1);
        }
        i += 1;
    }
    None
}

/// `v[key]`, with `None` standing for `Null`.
pub fn get_field<'a>(v: &'a JsonValue, key: &str) -> (r: Option<&'a JsonValue>)
    ensures
        r matches Some(x) ==> field(*v, key@) == *x,
        r is None ==> field(*v, key@) == JsonValue::Null,
{
    match v {
        JsonValue::Object(es) => entry(es, key),
        _ => None,
    }
}

/// The array inside `v`, if it is one.
pub fn array_of<'a>(v: Option<&'a JsonValue>) -> (r: Option<&'a Vec<JsonValue>>)
    ensures
        r matches Some(a) ==> v matches Some(x) && as_array(*x) == Some(a@),
        r is None ==> v is None || as_array(*v->0) is None,
{
    match v {
        Some(JsonValue::Array(a)) => Some(a),
        _ => None,
    }
}

/// The entries of `v`, if it is an object.
pub fn object_of<'a>(v: Option<&'a JsonValue>) -> (r: Option<&'a Vec<(String, JsonValue)>>)
    ensures
        r matches Some(es) ==> v matches Some(x) && as_object(*x) == Some(es@),
        r is None ==> v is None || as_object(*v->0) is None,
{
    match v {
        Some(JsonValue::Object(es)) => Some(es),
        _ => None,
    }
}

/// The string inside `v`, if it is one.
pub fn str_of<'a>(v: Option<&'a JsonValue>) -> (r: Option<&'a String>)
    ensures
        r matches Some(s) ==> v matches Some(x) && as_str(*x) == Some(s@),
        r is None ==> v is None || as_str(*v->0) is None,
{
    match v {
        Some(JsonValue::Str(s)) => Some(s),
        _ => None,
    }
}


/// The mathematical form of a JSON value: text as characters, numbers as
/// their decimal text.
pub enum JsonView {
    Null,
    Bool(bool),
    Number(Seq<char>),
    Str(Seq<char>),
    Array(Seq<JsonView>),
    Object(Seq<(Seq<char>, JsonView)>),
}

/// Whether the value `v` is the JSON value `w`, entry for entry and in order.
pub open spec fn json_is(v: JsonValue, w: JsonView) -> bool
    decreases w,
{
    match w {
        JsonView::Null => v is Null,
        JsonView::Bool(b) => v == JsonValue::Bool(b),
        JsonView::Number(t) => v matches JsonValue::Number(s) && s@ == t,
        JsonView::Str(t) => v matches JsonValue::Str(s) && s@ == t,
        JsonView::Array(ws) => v matches JsonValue::Array(a) && a@.len() == ws.len() && forall|
            i: int,
        |
            0 <= i < ws.len() ==> json_is(#[trigger] a@[i], ws[i]),
        JsonView::Object(kws) => v matches JsonValue::Object(es) && es@.len() == kws.len()
            && forall|i: int|
            0 <= i < kws.len() ==> #[trigger] es@[i].0@ == kws[i].0 && json_is(
                es@[i].1,
                kws[i].1,
            ),
    }
}

/// A JSON string.
pub fn str_value(s: &str) -> (v: JsonValue)
    ensures
        json_is(v, JsonView::Str(s@)),
{
    JsonValue::Str(String::from_str(s))
}

/// A JSON boolean.
pub fn bool_value(b: bool) -> (v: JsonValue)
    ensures
        json_is(v, JsonView::Bool(b)),
{
    JsonValue::Bool(b)
}

/// A JSON number with the value of `n`.
pub fn int_value(n: i64) -> (v: JsonValue)
    ensures
        json_is(v, JsonView::Number(crate::text::signed_decimal(n as int))),
{
    let d = crate::text::signed_decimal_chars(n);
    JsonValue::Number(crate::text::string_of(d.as_slice()))
}

/// A JSON number with the value of `n`.
pub fn uint_value(n: usize) -> (v: JsonValue)
    ensures
        json_is(v, JsonView::Number(crate::text::decimal(n as nat))),
{
    let d = crate::text::decimal_chars(n as u64);
    JsonValue::Number(crate::text::string_of(d.as_slice()))
}

/// A JSON array of the string values `items`.
pub fn str_array(items: &Vec<String>) -> (v: JsonValue)
    ensures
        json_is(v, JsonView::Array(Seq::new(items@.len(), |i: int| JsonView::Str(items@[i]@)))),
{
    let mut a: Vec<JsonValue> = Vec::new();
    let mut i: usize = 0;
    while i < items.len()
        invariant
            i <= items@.len(),
            a@.len() == i,
            forall|k: int| 0 <= k < i ==> json_is(#[trigger] a@[k], JsonView::Str(items@[k]@)),
        decreases items@.len() - i,
    {
        a.push(JsonValue::Str(items[i].clone()));
        i += 1;
    }
    let v = JsonValue::Array(a);
    let ghost ws = Seq::new(items@.len(), |i: int| JsonView::Str(items@[i]@));
    assert(forall|k: int| 0 <= k < ws.len() ==> json_is(#[trigger] a@[k], ws[k]));
    v
}

/// A JSON array of one value.
pub(crate) fn array1(x: JsonValue, Ghost(w): Ghost<JsonView>) -> (v: JsonValue)
    requires
        json_is(x, w),
    ensures
        json_is(v, JsonView::Array(seq![w])),
{
    let mut a: Vec<JsonValue> = Vec::new();
    a.push(x);
    JsonValue::Array(a)
}

/// A JSON object of one entry.
pub(crate) fn object1(k: &str, x: JsonValue, Ghost(w): Ghost<JsonView>) -> (v: JsonValue)
    requires
        json_is(x, w),
    ensures
        json_is(v, JsonView::Object(seq![(k@, w)])),
{
    let mut es: Vec<(String, JsonValue)> = Vec::new();
    es.push((String::from_str(k), x));
    JsonValue::Object(es)
}


/// Whether the entries `es` are the entries `kws`, in order.
pub open spec fn entries_are(es: Seq<(String, JsonValue)>, kws: Seq<(Seq<char>, JsonView)>) -> bool {
    &&& es.len() == kws.len()
    &&& forall|i: int|
        0 <= i < kws.len() ==> #[trigger] es[i].0@ == kws[i].0 && json_is(es[i].1, kws[i].1)
}

/// Appends the entry `k: x` to the entries of an object being built.
pub(crate) fn push_entry(
    es: &mut Vec<(String, JsonValue)>,
    k: &str,
    x: JsonValue,
    Ghost(kws): Ghost<Seq<(Seq<char>, JsonView)>>,
    Ghost(w): Ghost<JsonView>,
)
    requires
        entries_are(old(es)@, kws),
        json_is(x, w),
    ensures
        entries_are(final(es)@, kws.push((k@, w))),
{
    es.push((String::from_str(k), x));
    assert(forall|i: int| 0 <= i < kws.len() ==> final(es)@[i] == old(es)@[i]);
}

/// The object with the entries `es`.
pub(crate) fn object_from(es: Vec<(String, JsonValue)>, Ghost(kws): Ghost<Seq<(Seq<char>, JsonView)>>) -> (v: JsonValue)
    requires
        entries_are(es@, kws),
    ensures
        json_is(v, JsonView::Object(kws)),
{
    JsonValue::Object(es)
}

} // verus!
