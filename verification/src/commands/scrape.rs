//! `twitter scrape <url>`.

use vstd::prelude::*;

use crate::cli::Scrape;
use crate::json::{has_member, lacks_member, lemma_follows_empty, lemma_members_of_form, object_is, put_shaped, signed_number, texts, Json, Shape};
use crate::text::{cat, chars_of, signed_decimal, string_of, trim, trimmed};

verus! {

/// `s` begins with `p`.
pub open spec fn starts_with(s: Seq<char>, p: Seq<char>) -> bool {
    s.len() >= p.len() && s.take(p.len() as int) == p
}

/// `s` without its leading `@` characters.
pub open spec fn strip_ats(s: Seq<char>) -> Seq<char>
    decreases s.len(),
{
    if s.len() > 0 && s[0] == '@' {
        strip_ats(s.drop_first())
    } else {
        s
    }
}

/// The target is a URL: it starts with `http://` or `https://` once trimmed.
pub open spec fn is_url(target: Seq<char>) -> bool {
    starts_with(trimmed(target), "http://"@) || starts_with(trimmed(target), "https://"@)
}

/// The handle a non-URL target names.
pub open spec fn handle_of(target: Seq<char>) -> Seq<char> {
    strip_ats(trimmed(target))
}

/// The actor input of a scrape: the URL to start from (a handle becomes its profile URL and is
/// also passed as a handle), the limit, and the requested extras.
pub open spec fn scrape_form(args: Scrape) -> Seq<(Seq<char>, Shape)> {
    let t = args.url@;
    let base = if is_url(t) {
        seq![
            ("startUrls"@, Shape::Texts(seq![trimmed(t)])),
            ("maxItems"@, Shape::Num(signed_decimal(args.max as int, 0))),
        ]
    } else {
        seq![
            ("startUrls"@, Shape::Texts(seq!["https://x.com/"@ + handle_of(t)])),
            ("maxItems"@, Shape::Num(signed_decimal(args.max as int, 0))),
            ("twitterHandles"@, Shape::Texts(seq![handle_of(t)])),
        ]
    };
    let a = if args.followers {
        base.push(("includeFollowers"@, Shape::Flag(true)))
    } else {
        base
    };
    let b = if args.following {
        a.push(("includeFollowing"@, Shape::Flag(true)))
    } else {
        a
    };
    if args.retweeters {
        b.push(("includeRetweeters"@, Shape::Flag(true)))
    } else {
        b
    }
}

fn has_prefix(cs: &Vec<char>, p: &str) -> (r: bool)
    ensures
        r == starts_with(cs@, p@),
{
    let pc = chars_of(p);
    if pc.len() > cs.len() {
        return false;
    }
    let mut i: usize = 0;
    while i < pc.len()
        invariant
            pc@ == p@,
            pc@.len() <= cs@.len(),
            i <= pc@.len(),
            forall|j: int| 0 <= j < i ==> cs@[j] == pc@[j],
        decreases pc.len() - i,
    {
        if cs[i] != pc[i] {
            assert(cs@.take(pc@.len() as int)[i as int] != pc@[i as int]);
            return false;
        }
        i = i + 1;
    }
    assert(cs@.take(pc@.len() as int) =~= pc@);
    true
}

fn without_ats(cs: &Vec<char>) -> (r: String)
    ensures
        r@ == strip_ats(cs@),
{
    let mut i: usize = 0;
    assert(cs@.skip(0) == cs@);
    while i < cs.len() && cs[i] == '@'
        invariant
            i <= cs@.len(),
            strip_ats(cs@) == strip_ats(cs@.skip(i as int)),
        decreases cs.len() - i,
    {
        assert(cs@.skip(i as int).drop_first() == cs@.skip(i + 1));
        i = i + 1;
    }
    assert(cs@.subrange(i as int, cs@.len() as int) == cs@.skip(i as int));
    string_of(cs.as_slice(), i, cs.len())
}

/// The actor input for a scrape.
pub fn scrape_payload(args: &Scrape) -> (r: Json)
    ensures
        object_is(r, scrape_form(*args)),
{
    let trimmed_url = trim(args.url.as_str());
    let cs = chars_of(trimmed_url.as_str());
    let url = has_prefix(&cs, "http://") || has_prefix(&cs, "https://");
    let mut ms: Vec<(String, Json)> = Vec::new();
    let ghost f0 = Seq::<(Seq<char>, Shape)>::empty();
    proof {
        lemma_follows_empty(ms@);
    }
    if url {
        let mut urls: Vec<String> = Vec::new();
        urls.push(trimmed_url);
        assert(urls@.map_values(|s: String| s@) =~= seq![trimmed(args.url@)]);
        put_shaped(&mut ms, "startUrls", texts(&urls), Ghost(f0), Ghost(Shape::Texts(seq![trimmed(args.url@)])));
        let ghost f1 = f0.push(("startUrls"@, Shape::Texts(seq![trimmed(args.url@)])));
        put_shaped(&mut ms, "maxItems", signed_number(args.max), Ghost(f1), Ghost(Shape::Num(signed_decimal(args.max as int, 0))));
        assert(f1.push(("maxItems"@, Shape::Num(signed_decimal(args.max as int, 0)))) =~= seq![
            ("startUrls"@, Shape::Texts(seq![trimmed(args.url@)])),
            ("maxItems"@, Shape::Num(signed_decimal(args.max as int, 0))),
        ]);
    } else {
        let handle = without_ats(&cs);
        let mut urls: Vec<String> = Vec::new();
        urls.push(cat("https://x.com/", handle.as_str()));
        let mut handles: Vec<String> = Vec::new();
        handles.push(handle);
        let ghost h = handle_of(args.url@);
        assert(urls@.map_values(|s: String| s@) =~= seq!["https://x.com/"@ + h]);
        assert(handles@.map_values(|s: String| s@) =~= seq![h]);
        put_shaped(&mut ms, "startUrls", texts(&urls), Ghost(f0), Ghost(Shape::Texts(seq!["https://x.com/"@ + h])));
        let ghost f1 = f0.push(("startUrls"@, Shape::Texts(seq!["https://x.com/"@ + h])));
        put_shaped(&mut ms, "maxItems", signed_number(args.max), Ghost(f1), Ghost(Shape::Num(signed_decimal(args.max as int, 0))));
        let ghost f2 = f1.push(("maxItems"@, Shape::Num(signed_decimal(args.max as int, 0))));
        put_shaped(&mut ms, "twitterHandles", texts(&handles), Ghost(f2), Ghost(Shape::Texts(seq![h])));
        assert(f2.push(("twitterHandles"@, Shape::Texts(seq![h]))) =~= seq![
            ("startUrls"@, Shape::Texts(seq!["https://x.com/"@ + h])),
            ("maxItems"@, Shape::Num(signed_decimal(args.max as int, 0))),
            ("twitterHandles"@, Shape::Texts(seq![h])),
        ]);
    }
    assert(url == is_url(args.url@));
    let ghost mut cur = if url {
        seq![
            ("startUrls"@, Shape::Texts(seq![trimmed(args.url@)])),
            ("maxItems"@, Shape::Num(signed_decimal(args.max as int, 0))),
        ]
    } else {
        seq![
            ("startUrls"@, Shape::Texts(seq!["https://x.com/"@ + handle_of(args.url@)])),
            ("maxItems"@, Shape::Num(signed_decimal(args.max as int, 0))),
            ("twitterHandles"@, Shape::Texts(seq![handle_of(args.url@)])),
        ]
    };
    if args.followers {
        put_shaped(&mut ms, "includeFollowers", Json::Bool(true), Ghost(cur), Ghost(Shape::Flag(true)));
        proof {
            cur = cur.push(("includeFollowers"@, Shape::Flag(true)));
        }
    }
    if args.following {
        put_shaped(&mut ms, "includeFollowing", Json::Bool(true), Ghost(cur), Ghost(Shape::Flag(true)));
        proof {
            cur = cur.push(("includeFollowing"@, Shape::Flag(true)));
        }
    }
    if args.retweeters {
        put_shaped(&mut ms, "includeRetweeters", Json::Bool(true), Ghost(cur), Ghost(Shape::Flag(true)));
        proof {
            cur = cur.push(("includeRetweeters"@, Shape::Flag(true)));
        }
    }
    proof {
        assert(cur =~= scrape_form(*args));
    }
    Json::Object(ms)
}

/// Names of no member of `form` stay absent after pushing a member of another name.
proof fn lemma_push_keeps_absent(form: Seq<(Seq<char>, Shape)>, member: (Seq<char>, Shape), other: Seq<char>)
    requires
        member.0 != other,
        forall|i: int| 0 <= i < form.len() ==> #[trigger] form[i].0 != other,
    ensures
        forall|i: int| 0 <= i < form.push(member).len() ==> #[trigger] form.push(member)[i].0 != other,
{
    assert forall|i: int| 0 <= i < form.push(member).len() implies #[trigger] form.push(member)[i].0 != other by {
        if i < form.len() {
            assert(form.push(member)[i] == form[i]);
        }
    }
}

/// Each of `--followers`, `--following` and `--retweeters` is sent, as `includeFollowers`,
/// `includeFollowing` and `includeRetweeters` set to `true`, exactly when it is given, whether
/// the target is a URL or a handle; a handle is also sent as `twitterHandles`, a URL is not.
pub proof fn lemma_scrape_options(args: Scrape, r: Json)
    requires
        object_is(r, scrape_form(args)),
    ensures
        args.followers ==> has_member(r, "includeFollowers"@, Shape::Flag(true)),
        !args.followers ==> lacks_member(r, "includeFollowers"@),
        args.following ==> has_member(r, "includeFollowing"@, Shape::Flag(true)),
        !args.following ==> lacks_member(r, "includeFollowing"@),
        args.retweeters ==> has_member(r, "includeRetweeters"@, Shape::Flag(true)),
        !args.retweeters ==> lacks_member(r, "includeRetweeters"@),
        is_url(args.url@) ==> lacks_member(r, "twitterHandles"@),
        !is_url(args.url@) ==> has_member(r, "twitterHandles"@, Shape::Texts(seq![handle_of(args.url@)])),
{
    reveal_strlit("startUrls");
    reveal_strlit("maxItems");
    reveal_strlit("twitterHandles");
    reveal_strlit("includeFollowers");
    reveal_strlit("includeFollowing");
    reveal_strlit("includeRetweeters");
    let (su, mi, th, fo, fg, rt) = ("startUrls"@, "maxItems"@, "twitterHandles"@, "includeFollowers"@, "includeFollowing"@, "includeRetweeters"@);
    assert(su.len() == 9 && mi.len() == 8 && th.len() == 14 && fo.len() == 16 && fg.len() == 16 && rt.len() == 17);
    assert(fo[13] != fg[13]);
    assert(fo != fg);
    lemma_members_of_form(r, scrape_form(args));
    let t = args.url@;
    let base = if is_url(t) {
        seq![
            ("startUrls"@, Shape::Texts(seq![trimmed(t)])),
            ("maxItems"@, Shape::Num(signed_decimal(args.max as int, 0))),
        ]
    } else {
        seq![
            ("startUrls"@, Shape::Texts(seq!["https://x.com/"@ + handle_of(t)])),
            ("maxItems"@, Shape::Num(signed_decimal(args.max as int, 0))),
            ("twitterHandles"@, Shape::Texts(seq![handle_of(t)])),
        ]
    };
    let mf = ("includeFollowers"@, Shape::Flag(true));
    let mg = ("includeFollowing"@, Shape::Flag(true));
    let mr = ("includeRetweeters"@, Shape::Flag(true));
    let a = if args.followers { base.push(mf) } else { base };
    let b = if args.following { a.push(mg) } else { a };
    let f = if args.retweeters { b.push(mr) } else { b };
    assert(f == scrape_form(args));
    // The base never holds the three flags; with a URL it holds no handles either.
    assert forall|i: int| 0 <= i < base.len() implies #[trigger] base[i].0 != fo && base[i].0 != fg
        && base[i].0 != rt by {
        assert(base[i].0.len() != 16 && base[i].0.len() != 17);
    }
    // includeFollowers
    if args.followers {
        let k = base.len() as int;
        assert(a[k] == mf);
        assert(b[k] == a[k]);
        assert(f[k] == b[k]);
        assert(has_member(r, f[k].0, f[k].1));
    } else {
        lemma_push_keeps_absent(a, mg, fo);
        if args.following {
            lemma_push_keeps_absent(b, mr, fo);
        } else {
            lemma_push_keeps_absent(b, mr, fo);
        }
        assert forall|i: int| 0 <= i < f.len() implies #[trigger] f[i].0 != fo by {
            if args.following {
                assert(b == a.push(mg));
            }
            if args.retweeters {
                assert(f == b.push(mr));
            }
        }
    }
    // includeFollowing
    if args.following {
        let k = a.len() as int;
        assert(b[k] == mg);
        assert(f[k] == b[k]);
        assert(has_member(r, f[k].0, f[k].1));
    } else {
        if args.followers {
            lemma_push_keeps_absent(base, mf, fg);
        }
        lemma_push_keeps_absent(b, mr, fg);
        assert forall|i: int| 0 <= i < f.len() implies #[trigger] f[i].0 != fg by {
            if args.retweeters {
                assert(f == b.push(mr));
            }
        }
    }
    // includeRetweeters
    if args.retweeters {
        let k = b.len() as int;
        assert(f[k] == mr);
        assert(has_member(r, f[k].0, f[k].1));
    } else {
        if args.followers {
            lemma_push_keeps_absent(base, mf, rt);
        }
        if args.following {
            lemma_push_keeps_absent(a, mg, rt);
        }
    }
    // twitterHandles
    if is_url(t) {
        assert forall|i: int| 0 <= i < base.len() implies #[trigger] base[i].0 != th by {
            assert(base[i].0.len() != 14);
        }
        lemma_push_keeps_absent(base, mf, th);
        lemma_push_keeps_absent(a, mg, th);
        lemma_push_keeps_absent(b, mr, th);
        assert forall|i: int| 0 <= i < f.len() implies #[trigger] f[i].0 != th by {
            if args.followers {
                assert(a == base.push(mf));
            }
            if args.following {
                assert(b == a.push(mg));
            }
            if args.retweeters {
                assert(f == b.push(mr));
            }
        }
    } else {
        assert(a[2] == base[2]);
        assert(b[2] == a[2]);
        assert(f[2] == b[2]);
        assert(has_member(r, f[2].0, f[2].1));
    }
}

/// The target is always sent first, with the limit: a URL as it was given (trimmed), a handle as
/// its profile URL (without leading `@`s).
pub proof fn lemma_scrape_target(args: Scrape, r: Json)
    requires
        object_is(r, scrape_form(args)),
    ensures
        is_url(args.url@) ==> has_member(r, "startUrls"@, Shape::Texts(seq![trimmed(args.url@)])),
        !is_url(args.url@) ==> has_member(
            r,
            "startUrls"@,
            Shape::Texts(seq!["https://x.com/"@ + strip_ats(trimmed(args.url@))]),
        ),
        has_member(r, "maxItems"@, Shape::Num(signed_decimal(args.max as int, 0))),
{
    lemma_members_of_form(r, scrape_form(args));
    let f = scrape_form(args);
    let t = args.url@;
    let base = if is_url(t) {
        seq![
            ("startUrls"@, Shape::Texts(seq![trimmed(t)])),
            ("maxItems"@, Shape::Num(signed_decimal(args.max as int, 0))),
        ]
    } else {
        seq![
            ("startUrls"@, Shape::Texts(seq!["https://x.com/"@ + handle_of(t)])),
            ("maxItems"@, Shape::Num(signed_decimal(args.max as int, 0))),
            ("twitterHandles"@, Shape::Texts(seq![handle_of(t)])),
        ]
    };
    let mf = ("includeFollowers"@, Shape::Flag(true));
    let mg = ("includeFollowing"@, Shape::Flag(true));
    let mr = ("includeRetweeters"@, Shape::Flag(true));
    let a = if args.followers { base.push(mf) } else { base };
    let b = if args.following { a.push(mg) } else { a };
    assert(f == if args.retweeters { b.push(mr) } else { b });
    assert(a[0] == base[0] && a[1] == base[1]);
    assert(b[0] == a[0] && b[1] == a[1]);
    assert(f[0] == b[0] && f[1] == b[1]);
    assert(has_member(r, f[0].0, f[0].1));
    assert(has_member(r, f[1].0, f[1].1));
}

} // verus!
