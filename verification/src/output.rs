//! What a command prints: its result rendered as YAML, or as JSON with `--json`, and on failure
//! the error envelope, whose `code` is also the exit status.

use vstd::prelude::*;

use crate::error::{opt_text, spec_code_name, spec_exit_code, Error};
use crate::json::{follows, lemma_follows_empty, object_is, put_shaped, to_value, Json, Shape};
use crate::text::{blank, is_blank, strip_newlines, trim_newlines};

verus! {

/// What `serde_json::to_string_pretty` gives for the document (`None` on a serialisation
/// error).
pub uninterp spec fn pretty_json(v: Json) -> Option<Seq<char>>;

/// What `serde_norway::to_string` gives for the document (`None` on a serialisation error).
pub uninterp spec fn yaml_text(v: Json) -> Option<Seq<char>>;

/// `serde_json::to_string_pretty` of the document.
#[verifier::external_body]
fn to_pretty_json(v: &Json) -> (r: Option<String>)
    ensures
        opt_text(r) == pretty_json(*v),
{
    serde_json::to_string_pretty(&to_value(v)).ok()
}

/// `serde_norway::to_string` of the document.
#[verifier::external_body]
fn to_yaml(v: &Json) -> (r: Option<String>)
    ensures
        opt_text(r) == yaml_text(*v),
{
    serde_norway::to_string(&to_value(v)).ok()
}

/// The text, or nothing where there is none.
pub open spec fn or_empty(t: Option<Seq<char>>) -> Seq<char> {
    match t {
        Some(s) => s,
        None => Seq::empty(),
    }
}

/// The YAML text of a document, without the newlines it ends with.
pub fn yaml(value: &Json) -> (r: String)
    ensures
        r@ == strip_newlines(or_empty(yaml_text(*value))),
{
    match to_yaml(value) {
        Some(s) => trim_newlines(s.as_str()),
        None => String::new(),
    }
}

/// A result as it is printed: pretty JSON with `--json`, YAML otherwise.
pub fn render(value: &Json, as_json: bool) -> (r: String)
    ensures
        as_json ==> r@ == or_empty(pretty_json(*value)),
        !as_json ==> r@ == strip_newlines(or_empty(yaml_text(*value))),
{
    if as_json {
        match to_pretty_json(value) {
            Some(s) => s,
            None => String::new(),
        }
    } else {
        yaml(value)
    }
}

/// An optional text member of the envelope: present when given and not blank.
pub open spec fn with_text(form: Seq<(Seq<char>, Shape)>, name: Seq<char>, t: Option<String>) -> Seq<(Seq<char>, Shape)> {
    match t {
        Some(s) => if blank(s@) {
            form
        } else {
            form.push((name, Shape::Text(s@)))
        },
        None => form,
    }
}

/// The error envelope: the message, the code's name, then detail and remediation where they
/// say anything.
pub open spec fn envelope_form(e: Error) -> Seq<(Seq<char>, Shape)> {
    with_text(
        with_text(
            seq![("error"@, Shape::Text(e.message@)), ("code"@, Shape::Text(spec_code_name(e.code)))],
            "detail"@,
            e.detail,
        ),
        "remediation"@,
        e.remediation,
    )
}

fn put_text(ms: &mut Vec<(String, Json)>, name: &str, t: &Option<String>, Ghost(form): Ghost<Seq<(Seq<char>, Shape)>>)
    requires
        follows(old(ms)@, form),
    ensures
        follows(final(ms)@, with_text(form, name@, *t)),
{
    if let Some(s) = t {
        if !is_blank(s.as_str()) {
            put_shaped(ms, name, Json::Str(s.clone()), Ghost(form), Ghost(Shape::Text(s@)));
        }
    }
}

/// The error envelope printed on standard error, and the exit status, which is the code's.
pub fn error_envelope(e: &Error) -> (r: (Json, i32))
    ensures
        object_is(r.0, envelope_form(*e)),
        r.1 == spec_exit_code(e.code),
{
    let mut ms: Vec<(String, Json)> = Vec::new();
    proof {
        lemma_follows_empty(ms@);
    }
    let ghost f = Seq::<(Seq<char>, Shape)>::empty();
    put_shaped(&mut ms, "error", Json::Str(e.message.clone()), Ghost(f), Ghost(Shape::Text(e.message@)));
    let ghost f = f.push(("error"@, Shape::Text(e.message@)));
    put_shaped(&mut ms, "code", crate::json::text(e.code.name()), Ghost(f), Ghost(Shape::Text(spec_code_name(e.code))));
    let ghost f = f.push(("code"@, Shape::Text(spec_code_name(e.code))));
    assert(f =~= seq![("error"@, Shape::Text(e.message@)), ("code"@, Shape::Text(spec_code_name(e.code)))]);
    put_text(&mut ms, "detail", &e.detail, Ghost(f));
    let ghost f = with_text(f, "detail"@, e.detail);
    put_text(&mut ms, "remediation", &e.remediation, Ghost(f));
    (Json::Object(ms), e.code.exit_code())
}

} // verus!
