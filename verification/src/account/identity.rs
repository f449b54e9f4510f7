//! Who a token belongs to, read from the `users/me` document.

use vstd::prelude::*;

use crate::json::{as_text, get, get_member, text_of, Json};
use crate::text::{blank, is_blank};

verus! {

/// The fields that may name the user, in order of preference.
pub open spec fn identity_fields() -> Seq<Seq<char>> {
    seq![
        "username"@,
        "userName"@,
        "user_name"@,
        "email"@,
        "userEmail"@,
        "user_email"@,
        "name"@,
        "login"@,
        "id"@,
    ]
}

/// The fields that may name the plan, in order of preference.
pub open spec fn plan_fields() -> Seq<Seq<char>> {
    seq!["plan"@, "planType"@, "pricingTier"@, "tier"@, "subscriptionType"@]
}

/// The fields of a `plan` object that may name it.
pub open spec fn plan_object_fields() -> Seq<Seq<char>> {
    seq!["id"@, "name"@, "type"@]
}

/// The first of `names` whose member in `v` is a non-blank string, as that string.
pub open spec fn first_text(v: Json, names: Seq<Seq<char>>) -> Option<Seq<char>>
    decreases names.len(),
{
    if names.len() == 0 {
        None
    } else {
        match as_text(get(v, names[0])) {
            Some(t) => if !blank(t) {
                Some(t)
            } else {
                first_text(v, names.drop_first())
            },
            None => first_text(v, names.drop_first()),
        }
    }
}

/// `first_text` within the object member `property` of `root`.
pub open spec fn nested_text(root: Json, property: Seq<char>, names: Seq<Seq<char>>) -> Option<Seq<char>> {
    match get(root, property) {
        Some(c) => if c is Object {
            first_text(c, names)
        } else {
            None
        },
        None => None,
    }
}

/// The first of three alternatives that is present, else the empty text.
pub open spec fn first_of(a: Option<Seq<char>>, b: Option<Seq<char>>, c: Option<Seq<char>>) -> Seq<char> {
    match a {
        Some(t) => t,
        None => match b {
            Some(t) => t,
            None => match c {
                Some(t) => t,
                None => Seq::empty(),
            },
        },
    }
}

/// The short label of a `me` document: a username or email at its top level, else in its
/// `data` object, else in its `user` object; empty for anything that is not an object.
pub open spec fn spec_describe(me: Json) -> Seq<char> {
    if me is Object {
        first_of(
            first_text(me, identity_fields()),
            nested_text(me, "data"@, identity_fields()),
            nested_text(me, "user"@, identity_fields()),
        )
    } else {
        Seq::empty()
    }
}

/// The plan of a `me` document: at its top level, else in its `data` object, else the `id`,
/// `name` or `type` of its `plan` object; empty for anything that is not an object.
pub open spec fn spec_plan(me: Json) -> Seq<char> {
    if me is Object {
        first_of(
            first_text(me, plan_fields()),
            nested_text(me, "data"@, plan_fields()),
            nested_text(me, "plan"@, plan_object_fields()),
        )
    } else {
        Seq::empty()
    }
}

/// The views of the names.
pub open spec fn names_view(names: Seq<&str>) -> Seq<Seq<char>> {
    names.map_values(|n: &str| n@)
}

fn first_string(v: &Json, names: &[&str]) -> (r: Option<String>)
    ensures
        match r {
            Some(s) => first_text(*v, names_view(names@)) == Some(s@),
            None => first_text(*v, names_view(names@)) is None,
        },
{
    let ghost all = names_view(names@);
    let mut i: usize = 0;
    assert(all.skip(0) == all);
    while i < names.len()
        invariant
            all == names_view(names@),
            i <= names@.len(),
            first_text(*v, all) == first_text(*v, all.skip(i as int)),
        decreases names.len() - i,
    {
        assert(all.skip(i as int).drop_first() == all.skip(i + 1));
        assert(all.skip(i as int)[0] == names@[i as int]@);
        match text_of(get_member(v, names[i])) {
            Some(t) => {
                if !is_blank(t.as_str()) {
                    return Some(t.clone());
                }
            },
            None => {},
        }
        i = i + 1;
    }
    None
}

fn nested(root: &Json, property: &str, names: &[&str]) -> (r: Option<String>)
    ensures
        match r {
            Some(s) => nested_text(*root, property@, names_view(names@)) == Some(s@),
            None => nested_text(*root, property@, names_view(names@)) is None,
        },
{
    match get_member(root, property) {
        Some(c) => match c {
            Json::Object(_) => first_string(c, names),
            _ => None,
        },
        None => None,
    }
}

fn first_present(a: Option<String>, b: Option<String>, c: Option<String>) -> (r: String)
    ensures
        r@ == first_of(
            match a { Some(s) => Some(s@), None => None },
            match b { Some(s) => Some(s@), None => None },
            match c { Some(s) => Some(s@), None => None },
        ),
{
    match a {
        Some(s) => s,
        None => match b {
            Some(s) => s,
            None => match c {
                Some(s) => s,
                None => String::new(),
            },
        },
    }
}

/// A short human label - username or email.
pub fn describe(me: &Json) -> (r: String)
    ensures
        r@ == spec_describe(*me),
{
    match me {
        Json::Object(_) => {},
        _ => return String::new(),
    }
    let names: [&str; 9] = [
        "username",
        "userName",
        "user_name",
        "email",
        "userEmail",
        "user_email",
        "name",
        "login",
        "id",
    ];
    proof {
        assert(names_view(names@) =~= identity_fields());
    }
    let top = first_string(me, &names);
    let data = nested(me, "data", &names);
    let user = nested(me, "user", &names);
    first_present(top, data, user)
}

/// The plan or subscription type observed.
pub fn plan(me: &Json) -> (r: String)
    ensures
        r@ == spec_plan(*me),
{
    match me {
        Json::Object(_) => {},
        _ => return String::new(),
    }
    let names: [&str; 5] = ["plan", "planType", "pricingTier", "tier", "subscriptionType"];
    let plan_names: [&str; 3] = ["id", "name", "type"];
    proof {
        assert(names_view(names@) =~= plan_fields());
        assert(names_view(plan_names@) =~= plan_object_fields());
    }
    let top = first_string(me, &names);
    let data = nested(me, "data", &names);
    let inner = nested(me, "plan", &plan_names);
    first_present(top, data, inner)
}

} // verus!
