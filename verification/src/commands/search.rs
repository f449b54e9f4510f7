//! `twitter search <query>`.

use vstd::prelude::*;

use crate::cli::Search;
use crate::json::{follows, has_member, lacks_member, lemma_follows_empty, lemma_members_of_form, object_is, put_shaped, signed_number, text, texts, Json, Shape};
use crate::text::{blank, is_blank, signed_decimal};

verus! {

/// The optional text member `name`: present when the option was given and is not blank.
pub open spec fn with_option(form: Seq<(Seq<char>, Shape)>, name: Seq<char>, o: Option<String>) -> Seq<(Seq<char>, Shape)> {
    match o {
        Some(v) => if blank(v@) {
            form
        } else {
            form.push((name, Shape::Text(v@)))
        },
        None => form,
    }
}

/// The actor input of a search: the query, the limit, the sort order and the filters, with
/// the language and the date window only where given.
pub open spec fn search_form(args: Search) -> Seq<(Seq<char>, Shape)> {
    let base = seq![
        ("searchTerms"@, Shape::Texts(seq![args.query@])),
        ("maxItems"@, Shape::Num(signed_decimal(args.max as int, 0))),
        ("sort"@, Shape::Text(args.sort@)),
        ("onlyVerifiedUsers"@, Shape::Flag(args.verified)),
        ("onlyImage"@, Shape::Flag(args.images)),
        ("onlyVideo"@, Shape::Flag(args.videos)),
        ("onlyQuote"@, Shape::Flag(false)),
    ];
    with_option(
        with_option(with_option(base, "tweetLanguage"@, args.lang), "start"@, args.since),
        "end"@,
        args.until,
    )
}

fn put_option(
    ms: &mut Vec<(String, Json)>,
    name: &str,
    o: &Option<String>,
    Ghost(form): Ghost<Seq<(Seq<char>, Shape)>>,
)
    requires
        follows(old(ms)@, form),
    ensures
        follows(final(ms)@, with_option(form, name@, *o)),
{
    if let Some(v) = o {
        if !is_blank(v.as_str()) {
            put_shaped(ms, name, Json::Str(v.clone()), Ghost(form), Ghost(Shape::Text(v@)));
        }
    }
}

/// The actor input for a search.
pub fn search_payload(args: &Search) -> (r: Json)
    ensures
        object_is(r, search_form(*args)),
{
    let mut ms: Vec<(String, Json)> = Vec::new();
    let mut terms: Vec<String> = Vec::new();
    terms.push(args.query.clone());
    let ghost f0 = Seq::<(Seq<char>, Shape)>::empty();
    proof {
        lemma_follows_empty(ms@);
    }
    let t = texts(&terms);
    assert(terms@.map_values(|s: String| s@) =~= seq![args.query@]);
    put_shaped(&mut ms, "searchTerms", t, Ghost(f0), Ghost(Shape::Texts(seq![args.query@])));
    let ghost f1 = f0.push(("searchTerms"@, Shape::Texts(seq![args.query@])));
    put_shaped(&mut ms, "maxItems", signed_number(args.max), Ghost(f1), Ghost(Shape::Num(signed_decimal(args.max as int, 0))));
    let ghost f2 = f1.push(("maxItems"@, Shape::Num(signed_decimal(args.max as int, 0))));
    put_shaped(&mut ms, "sort", Json::Str(args.sort.clone()), Ghost(f2), Ghost(Shape::Text(args.sort@)));
    let ghost f3 = f2.push(("sort"@, Shape::Text(args.sort@)));
    put_shaped(&mut ms, "onlyVerifiedUsers", Json::Bool(args.verified), Ghost(f3), Ghost(Shape::Flag(args.verified)));
    let ghost f4 = f3.push(("onlyVerifiedUsers"@, Shape::Flag(args.verified)));
    put_shaped(&mut ms, "onlyImage", Json::Bool(args.images), Ghost(f4), Ghost(Shape::Flag(args.images)));
    let ghost f5 = f4.push(("onlyImage"@, Shape::Flag(args.images)));
    put_shaped(&mut ms, "onlyVideo", Json::Bool(args.videos), Ghost(f5), Ghost(Shape::Flag(args.videos)));
    let ghost f6 = f5.push(("onlyVideo"@, Shape::Flag(args.videos)));
    put_shaped(&mut ms, "onlyQuote", Json::Bool(false), Ghost(f6), Ghost(Shape::Flag(false)));
    let ghost f7 = f6.push(("onlyQuote"@, Shape::Flag(false)));
    assert(f7 =~= seq![
        ("searchTerms"@, Shape::Texts(seq![args.query@])),
        ("maxItems"@, Shape::Num(signed_decimal(args.max as int, 0))),
        ("sort"@, Shape::Text(args.sort@)),
        ("onlyVerifiedUsers"@, Shape::Flag(args.verified)),
        ("onlyImage"@, Shape::Flag(args.images)),
        ("onlyVideo"@, Shape::Flag(args.videos)),
        ("onlyQuote"@, Shape::Flag(false)),
    ]);
    put_option(&mut ms, "tweetLanguage", &args.lang, Ghost(f7));
    let ghost f8 = with_option(f7, "tweetLanguage"@, args.lang);
    put_option(&mut ms, "start", &args.since, Ghost(f8));
    let ghost f9 = with_option(f8, "start"@, args.since);
    put_option(&mut ms, "end", &args.until, Ghost(f9));
    Json::Object(ms)
}

/// The name given to an optional text member does not clash: adding it leaves the names of
/// the other members as they were, so a name absent from `form` stays absent unless it is
/// `name` itself.
proof fn lemma_with_option_names(form: Seq<(Seq<char>, Shape)>, name: Seq<char>, o: Option<String>, other: Seq<char>)
    requires
        other != name,
        forall|i: int| 0 <= i < form.len() ==> #[trigger] form[i].0 != other,
    ensures
        forall|i: int| 0 <= i < with_option(form, name, o).len() ==> #[trigger] with_option(form, name, o)[i].0 != other,
{
}

/// Where an optional text member is given and not blank, it is the last member so far.
proof fn lemma_with_option_last(form: Seq<(Seq<char>, Shape)>, name: Seq<char>, o: Option<String>)
    requires
        o matches Some(v) && !blank(v@),
    ensures
        with_option(form, name, o).len() == form.len() + 1,
        with_option(form, name, o).last() == (name, Shape::Text(o->Some_0@)),
{
}

/// Adding an optional member keeps the members before it.
proof fn lemma_with_option_prefix(form: Seq<(Seq<char>, Shape)>, name: Seq<char>, o: Option<String>, i: int)
    requires
        0 <= i < form.len(),
    ensures
        with_option(form, name, o)[i] == form[i],
{
}

/// A name whose length no member of `base` has is none of its names.
proof fn distinct_lengths(i: int, base: Seq<(Seq<char>, Shape)>, name: Seq<char>)
    requires
        0 <= i < base.len(),
        forall|j: int| 0 <= j < base.len() ==> #[trigger] base[j].0.len() != name.len(),
    ensures
        base[i].0 != name,
{
    assert(base[i].0.len() != name.len());
}

/// The search always sends the query, the limit, the sort order and the three media and
/// verification filters as given, and never asks for quotes only.
pub proof fn lemma_search_always_sent(args: Search, r: Json)
    requires
        object_is(r, search_form(args)),
    ensures
        has_member(r, "searchTerms"@, Shape::Texts(seq![args.query@])),
        has_member(r, "maxItems"@, Shape::Num(signed_decimal(args.max as int, 0))),
        has_member(r, "sort"@, Shape::Text(args.sort@)),
        has_member(r, "onlyVerifiedUsers"@, Shape::Flag(args.verified)),
        has_member(r, "onlyImage"@, Shape::Flag(args.images)),
        has_member(r, "onlyVideo"@, Shape::Flag(args.videos)),
        has_member(r, "onlyQuote"@, Shape::Flag(false)),
{
    lemma_members_of_form(r, search_form(args));
    let base = seq![
        ("searchTerms"@, Shape::Texts(seq![args.query@])),
        ("maxItems"@, Shape::Num(signed_decimal(args.max as int, 0))),
        ("sort"@, Shape::Text(args.sort@)),
        ("onlyVerifiedUsers"@, Shape::Flag(args.verified)),
        ("onlyImage"@, Shape::Flag(args.images)),
        ("onlyVideo"@, Shape::Flag(args.videos)),
        ("onlyQuote"@, Shape::Flag(false)),
    ];
    let l = with_option(base, "tweetLanguage"@, args.lang);
    let st = with_option(l, "start"@, args.since);
    let f = with_option(st, "end"@, args.until);
    assert forall|i: int| 0 <= i < 7 implies #[trigger] f[i] == base[i] by {
        lemma_with_option_prefix(base, "tweetLanguage"@, args.lang, i);
        lemma_with_option_prefix(l, "start"@, args.since, i);
        lemma_with_option_prefix(st, "end"@, args.until, i);
    }
    assert(has_member(r, f[0].0, f[0].1));
    assert(has_member(r, f[1].0, f[1].1));
    assert(has_member(r, f[2].0, f[2].1));
    assert(has_member(r, f[3].0, f[3].1));
    assert(has_member(r, f[4].0, f[4].1));
    assert(has_member(r, f[5].0, f[5].1));
    assert(has_member(r, f[6].0, f[6].1));
}

/// Each of `--lang`, `--since` and `--until` is sent exactly when it is given and not blank,
/// as `tweetLanguage`, `start` and `end`, whatever the other two are.
pub proof fn lemma_search_options(args: Search, r: Json)
    requires
        object_is(r, search_form(args)),
    ensures
        (args.lang matches Some(v) && !blank(v@)) ==> has_member(r, "tweetLanguage"@, Shape::Text(args.lang->Some_0@)),
        !(args.lang matches Some(v) && !blank(v@)) ==> lacks_member(r, "tweetLanguage"@),
        (args.since matches Some(v) && !blank(v@)) ==> has_member(r, "start"@, Shape::Text(args.since->Some_0@)),
        !(args.since matches Some(v) && !blank(v@)) ==> lacks_member(r, "start"@),
        (args.until matches Some(v) && !blank(v@)) ==> has_member(r, "end"@, Shape::Text(args.until->Some_0@)),
        !(args.until matches Some(v) && !blank(v@)) ==> lacks_member(r, "end"@),
{
    reveal_strlit("searchTerms");
    reveal_strlit("maxItems");
    reveal_strlit("sort");
    reveal_strlit("onlyVerifiedUsers");
    reveal_strlit("onlyImage");
    reveal_strlit("onlyVideo");
    reveal_strlit("onlyQuote");
    reveal_strlit("tweetLanguage");
    reveal_strlit("start");
    reveal_strlit("end");
    assert("searchTerms"@.len() == 11);
    assert("maxItems"@.len() == 8);
    assert("sort"@.len() == 4);
    assert("onlyVerifiedUsers"@.len() == 17);
    assert("onlyImage"@.len() == 9);
    assert("onlyVideo"@.len() == 9);
    assert("onlyQuote"@.len() == 9);
    assert("tweetLanguage"@.len() == 13);
    assert("start"@.len() == 5);
    assert("end"@.len() == 3);
    lemma_members_of_form(r, search_form(args));
    let base = seq![
        ("searchTerms"@, Shape::Texts(seq![args.query@])),
        ("maxItems"@, Shape::Num(signed_decimal(args.max as int, 0))),
        ("sort"@, Shape::Text(args.sort@)),
        ("onlyVerifiedUsers"@, Shape::Flag(args.verified)),
        ("onlyImage"@, Shape::Flag(args.images)),
        ("onlyVideo"@, Shape::Flag(args.videos)),
        ("onlyQuote"@, Shape::Flag(false)),
    ];
    let l = with_option(base, "tweetLanguage"@, args.lang);
    let st = with_option(l, "start"@, args.since);
    let f = with_option(st, "end"@, args.until);
    assert(f == search_form(args));
    // tweetLanguage
    if args.lang matches Some(v) && !blank(v@) {
        lemma_with_option_last(base, "tweetLanguage"@, args.lang);
        assert(l[base.len() as int] == ("tweetLanguage"@, Shape::Text(args.lang->Some_0@)));
        assert(st[base.len() as int] == l[base.len() as int]);
        assert(f[base.len() as int] == st[base.len() as int]);
        assert(has_member(r, f[base.len() as int].0, f[base.len() as int].1));
    } else {
        assert forall|i: int| 0 <= i < base.len() implies #[trigger] base[i].0 != "tweetLanguage"@ by {
        distinct_lengths(i, base, "tweetLanguage"@);
    }
        assert(l == base);
        lemma_with_option_names(l, "start"@, args.since, "tweetLanguage"@);
        lemma_with_option_names(st, "end"@, args.until, "tweetLanguage"@);
    }
    // start
    assert forall|i: int| 0 <= i < base.len() implies #[trigger] base[i].0 != "start"@ by {
        distinct_lengths(i, base, "start"@);
    }
    lemma_with_option_names(base, "tweetLanguage"@, args.lang, "start"@);
    if args.since matches Some(v) && !blank(v@) {
        lemma_with_option_last(l, "start"@, args.since);
        assert(st[l.len() as int] == ("start"@, Shape::Text(args.since->Some_0@)));
        assert(f[l.len() as int] == st[l.len() as int]);
        assert(has_member(r, f[l.len() as int].0, f[l.len() as int].1));
    } else {
        assert(st == l);
        lemma_with_option_names(st, "end"@, args.until, "start"@);
    }
    // end
    assert forall|i: int| 0 <= i < base.len() implies #[trigger] base[i].0 != "end"@ by {
        distinct_lengths(i, base, "end"@);
    }
    lemma_with_option_names(base, "tweetLanguage"@, args.lang, "end"@);
    lemma_with_option_names(l, "start"@, args.since, "end"@);
    if args.until matches Some(v) && !blank(v@) {
        lemma_with_option_last(st, "end"@, args.until);
        assert(has_member(r, f[st.len() as int].0, f[st.len() as int].1));
    } else {
        assert(f == st);
    }
}

} // verus!
