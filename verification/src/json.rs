//! JSON documents as the library reads them. Parsing is serde_json's; the library holds the
//! parsed document as plain values and reads fields out of it.

use vstd::prelude::*;

verus! {

/// A JSON value. Numbers keep serde_json's rendering of them; objects keep their members in the
/// order serde_json hands them out.
#[derive(Debug)]
pub enum Json {
    Null,
    Bool(bool),
    Number(String),
    Str(String),
    Array(Vec<Json>),
    Object(Vec<(String, Json)>),
}

#[verifier::external_type_specification]
#[verifier::external_body]
pub struct ExJsonValue(serde_json::Value);

/// What `serde_json::from_slice::<serde_json::Value>` gives for the bytes (`None` on a parse
/// error), as a `Json`.
pub uninterp spec fn json_parse(bytes: Seq<u8>) -> Option<Json>;

/// The first member named `key` in an object's members.
pub open spec fn member(entries: Seq<(String, Json)>, key: Seq<char>) -> Option<Json>
    decreases entries.len(),
{
    if entries.len() == 0 {
        None
    } else if entries[0].0@ == key {
        Some(entries[0].1)
    } else {
        member(entries.drop_first(), key)
    }
}

/// `value.get(key)` of serde_json: the member of an object, `None` for anything else.
pub open spec fn get(v: Json, key: Seq<char>) -> Option<Json> {
    match v {
        Json::Object(entries) => member(entries@, key),
        _ => None,
    }
}

/// The text of a JSON string, `None` for anything else (serde_json's `as_str`).
pub open spec fn as_text(v: Option<Json>) -> Option<Seq<char>> {
    match v {
        Some(Json::Str(s)) => Some(s@),
        _ => None,
    }
}

/// `serde_json::from_slice` into a `serde_json::Value`, converted to `Json`; `None` where the
/// bytes are not a JSON document. Which documents parse, and to what, is serde_json's grammar,
/// named here `json_parse` and not restated.
#[verifier::external_body]
pub(crate) fn parse(bytes: &[u8]) -> (r: Option<Json>)
    ensures
        r == json_parse(bytes@),
{
    serde_json::from_slice::<serde_json::Value>(bytes).ok().map(|v| from_value(&v))
}

/// Converts a `serde_json::Value` variant by variant into a `Json`.
#[verifier::external_body]
fn from_value(v: &serde_json::Value) -> Json {
    match v {
        serde_json::Value::Null => Json::Null,
        serde_json::Value::Bool(b) => Json::Bool(*b),
        serde_json::Value::Number(n) => Json::Number(n.to_string()),
        serde_json::Value::String(s) => Json::Str(s.clone()),
        serde_json::Value::Array(a) => Json::Array(a.iter().map(from_value).collect()),
        serde_json::Value::Object(m) => Json::Object(
            m.iter().map(|(k, x)| (k.clone(), from_value(x))).collect(),
        ),
    }
}

/// Converts a `Json` variant by variant into a `serde_json::Value`, the inverse of `from_value`.
#[verifier::external_body]
pub(crate) fn to_value(v: &Json) -> serde_json::Value {
    match v {
        Json::Null => serde_json::Value::Null,
        Json::Bool(b) => serde_json::Value::Bool(*b),
        Json::Number(n) => serde_json::from_str(n).unwrap_or(serde_json::Value::Null),
        Json::Str(s) => serde_json::Value::String(s.clone()),
        Json::Array(a) => serde_json::Value::Array(a.iter().map(to_value).collect()),
        Json::Object(m) => serde_json::Value::Object(
            m.iter().map(|(k, x)| (k.clone(), to_value(x))).collect(),
        ),
    }
}

/// The value behind an optional reference.
pub open spec fn deref(r: Option<&Json>) -> Option<Json> {
    match r {
        Some(x) => Some(*x),
        None => None,
    }
}

/// The member named `key` of an object; `None` for a non-object or a missing member.
pub fn get_member<'a>(v: &'a Json, key: &str) -> (r: Option<&'a Json>)
    ensures
        deref(r) == get(*v, key@),
{
    match v {
        Json::Object(entries) => {
            let mut i: usize = 0;
            assert(entries@.subrange(0, entries@.len() as int) == entries@);
            while i < entries.len()
                invariant
                    i <= entries@.len(),
                    get(*v, key@) == member(entries@, key@),
                    member(entries@, key@) == member(entries@.subrange(i as int, entries@.len() as int), key@),
                decreases entries.len() - i,
            {
                let ghost rest = entries@.subrange(i as int, entries@.len() as int);
                assert(rest.drop_first() == entries@.subrange(i + 1, entries@.len() as int));
                assert(rest[0] == entries@[i as int]);
                if crate::text::str_eq(entries[i].0.as_str(), key) {
                    assert(member(rest, key@) == Some(rest[0].1));
                    return Some(&entries[i].1);
                }
                i = i + 1;
            }
            None
        },
        _ => None,
    }
}

/// The text of a JSON string value.
pub fn text_of(v: Option<&Json>) -> (r: Option<&String>)
    ensures
        match r {
            Some(s) => as_text(deref(v)) == Some(s@),
            None => as_text(deref(v)) is None,
        },
{
    match v {
        Some(Json::Str(s)) => Some(s),
        _ => None,
    }
}

/// `j` is the JSON string `t`.
pub open spec fn is_text(j: Json, t: Seq<char>) -> bool {
    j matches Json::Str(s) && s@ == t
}

/// `j` is the JSON number written `t`.
pub open spec fn is_number(j: Json, t: Seq<char>) -> bool {
    j matches Json::Number(s) && s@ == t
}

/// The value of the `i`-th member of an object.
pub open spec fn field(j: Json, i: int) -> Json {
    match j {
        Json::Object(ms) => ms@[i].1,
        _ => Json::Null,
    }
}

/// A JSON string of the text of `s`.
pub fn text(s: &str) -> (r: Json)
    ensures
        is_text(r, s@),
{
    Json::Str(String::from_str(s))
}

/// A JSON number for `n`.
pub fn number(n: usize) -> (r: Json)
    ensures
        is_number(r, crate::text::decimal(n as nat)),
{
    Json::Number(crate::text::decimal_of(n as u64))
}

/// A JSON number for a signed `n`.
pub fn signed_number(n: i32) -> (r: Json)
    ensures
        is_number(r, crate::text::signed_decimal(n as int, 0)),
{
    Json::Number(crate::text::signed_padded_decimal(n as i64, 0))
}

/// The expected form of a member's value.
pub enum Shape {
    Text(Seq<char>),
    Flag(bool),
    Num(Seq<char>),
    Texts(Seq<Seq<char>>),
    Items(nat),
    Is(Json),
}

/// `j` has the form `e`.
pub open spec fn fits(j: Json, e: Shape) -> bool {
    match e {
        Shape::Text(t) => is_text(j, t),
        Shape::Flag(b) => j == Json::Bool(b),
        Shape::Num(t) => is_number(j, t),
        Shape::Texts(ts) => j matches Json::Array(items) && items@.len() == ts.len() && forall|i: int|
            0 <= i < ts.len() ==> #[trigger] is_text(items@[i], ts[i]),
        Shape::Items(n) => j matches Json::Array(items) && items@.len() == n,
        Shape::Is(v) => j == v,
    }
}

/// The members `ms` follow `form`: the names it gives, in its order, each value of its form.
#[verifier::opaque]
pub open spec fn follows(ms: Seq<(String, Json)>, form: Seq<(Seq<char>, Shape)>) -> bool {
    ms.len() == form.len() && forall|i: int|
        0 <= i < form.len() ==> #[trigger] ms[i].0@ == form[i].0 && fits(ms[i].1, form[i].1)
}

/// `j` is an object with exactly the members `form` names, in that order, each of its form.
pub open spec fn object_is(j: Json, form: Seq<(Seq<char>, Shape)>) -> bool {
    j matches Json::Object(ms) && follows(ms@, form)
}

/// `j` is an object with a member named `name` whose value has the form `e`.
pub open spec fn has_member(j: Json, name: Seq<char>, e: Shape) -> bool {
    j matches Json::Object(ms) && exists|i: int|
        0 <= i < ms@.len() && #[trigger] ms@[i].0@ == name && fits(ms@[i].1, e)
}

/// `j` is an object with no member named `name`.
pub open spec fn lacks_member(j: Json, name: Seq<char>) -> bool {
    j matches Json::Object(ms) && forall|i: int| 0 <= i < ms@.len() ==> #[trigger] ms@[i].0@ != name
}

/// An object of a given form has each member the form names, and no member it does not name.
pub proof fn lemma_members_of_form(j: Json, form: Seq<(Seq<char>, Shape)>)
    requires
        object_is(j, form),
    ensures
        forall|i: int| 0 <= i < form.len() ==> #[trigger] has_member(j, form[i].0, form[i].1),
        forall|name: Seq<char>|
            (forall|i: int| 0 <= i < form.len() ==> #[trigger] form[i].0 != name) ==> #[trigger] lacks_member(j, name),
{
    reveal(follows);
    let ms = j->Object_0;
    assert forall|i: int| 0 <= i < form.len() implies #[trigger] has_member(j, form[i].0, form[i].1) by {
        assert(ms@[i].0@ == form[i].0);
    }
    assert forall|name: Seq<char>|
        (forall|i: int| 0 <= i < form.len() ==> #[trigger] form[i].0 != name) implies #[trigger] lacks_member(j, name) by {
        assert forall|i: int| 0 <= i < ms@.len() implies #[trigger] ms@[i].0@ != name by {
            assert(form[i].0 != name);
        }
    }
}

/// A JSON array of the texts `items`.
pub fn texts(items: &Vec<String>) -> (r: Json)
    ensures
        fits(r, Shape::Texts(items@.map_values(|t: String| t@))),
{
    let mut out: Vec<Json> = Vec::new();
    let mut i: usize = 0;
    while i < items.len()
        invariant
            i <= items@.len(),
            out@.len() == i,
            forall|k: int| 0 <= k < i ==> #[trigger] is_text(out@[k], items@[k]@),
        decreases items.len() - i,
    {
        out.push(Json::Str(items[i].clone()));
        i = i + 1;
    }
    Json::Array(out)
}

/// Appends a member of the given form to members that so far follow `form`.
pub(crate) fn put_shaped(ms: &mut Vec<(String, Json)>, key: &str, value: Json, Ghost(form): Ghost<Seq<(Seq<char>, Shape)>>, Ghost(e): Ghost<Shape>)
    requires
        follows(old(ms)@, form),
        fits(value, e),
    ensures
        follows(final(ms)@, form.push((key@, e))),
        final(ms)@.drop_last() == old(ms)@,
        final(ms)@.last().1 == value,
{
    ms.push((String::from_str(key), value));
    proof {
        reveal(follows);
        let f = form.push((key@, e));
        assert forall|i: int| 0 <= i < f.len() implies #[trigger] ms@[i].0@ == f[i].0 && fits(ms@[i].1, f[i].1) by {
            if i < form.len() {
                assert(ms@[i] == old(ms)@[i]);
            }
        }
        assert(ms@.drop_last() =~= old(ms)@);
    }
}

/// No members follow the empty form.
pub(crate) proof fn lemma_follows_empty(ms: Seq<(String, Json)>)
    requires
        ms.len() == 0,
    ensures
        follows(ms, Seq::empty()),
{
    reveal(follows);
}

} // verus!
