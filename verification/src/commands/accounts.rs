//! `accounts add|list|test|remove`, and what `login` shares with `accounts add`.

use vstd::prelude::*;

use crate::account::{account_label, given, given_text, label};
use crate::config::{
    account_entries, is_first_match, no_match, AccountConfig, AccountView, Config,
};
use crate::error::{error_with, opt_text, Error, ErrorCode};
use crate::json::{
    field, follows, lemma_follows_empty, object_is, put_shaped, number, text, Json, Shape,
};
use crate::secrets::{spec_store_name, Store};
use crate::text::{
    blank, cat, eq_ascii_nocase, eq_ignore_ascii_case, is_blank, lowercase, push_str, str_eq,
    to_lowercase, trim, trimmed,
};

verus! {

/// The command adding an account: `accounts add` or `login`.
#[derive(Clone, Copy, Debug, PartialEq, Eq, Structural)]
pub enum Via {
    AccountsAdd,
    Login,
}

/// The remediation when the name is taken.
pub open spec fn taken_fix(via: Via, existing: Seq<char>) -> Seq<char> {
    match via {
        Via::AccountsAdd => "Pick a different name, or replace its key: twitter accounts add "@ + existing
            + " --api-key <key> --force"@,
        Via::Login => "Use --force to replace its key: twitter login "@ + existing + " --force"@,
    }
}

/// An invalid-input error with `message`, no detail, and the remediation `fix` if any.
pub open spec fn invalid_error(e: Error, message: Seq<char>, fix: Option<Seq<char>>) -> bool {
    &&& e.code == ErrorCode::InvalidInput
    &&& e.message@ == message
    &&& e.detail is None
    &&& opt_text(e.remediation) == fix
}

/// The name an account is added under, and whether it replaces one: a blank name is refused; a
/// name that matches a configured one up to ASCII case is that account, refused unless forced;
/// else the trimmed name is new.
pub open spec fn target_ok(via: Via, name: Seq<char>, config: Config, force: bool, r: Result<(String, bool), Error>) -> bool {
    if blank(name) {
        r matches Err(e) && invalid_error(e, "An account name is required."@, None)
    } else {
        let t = trimmed(name);
        let es = account_entries(config.accounts);
        if no_match(es, t) {
            r matches Ok(p) && p.0@ == t && !p.1
        } else {
            exists|i: int|
                #[trigger] is_first_match(es, t, i) && if force {
                    r matches Ok(p) && p.0@ == es[i].0 && p.1
                } else {
                    r matches Err(e) && invalid_error(
                        e,
                        "An account named '"@ + es[i].0 + "' already exists."@,
                        Some(taken_fix(via, es[i].0)),
                    )
                }
        }
    }
}

/// The name to add an account under, trimmed; a blank name is refused (checked before anything
/// is loaded).
pub fn account_name(name: &str) -> (r: Result<String, Error>)
    ensures
        blank(name@) ==> (r matches Err(e) && invalid_error(e, "An account name is required."@, None)),
        !blank(name@) ==> (r matches Ok(t) && t@ == trimmed(name@)),
{
    let t = trim(name);
    if t.as_str().is_empty() {
        return Err(error_with(ErrorCode::InvalidInput, "An account name is required."));
    }
    Ok(t)
}

/// Decides the name an account is added under (`accounts add` or `login`).
pub fn add_target(via: Via, name: &str, config: &Config, force: bool) -> (r: Result<(String, bool), Error>)
    ensures
        target_ok(via, name@, *config, force, r),
{
    let t = account_name(name)?;
    match config.find(t.as_str()) {
        None => Ok((t, false)),
        Some((existing, _)) => {
            if force {
                return Ok((existing, true));
            }
            let mut message = cat("An account named '", existing.as_str());
            push_str(&mut message, "' already exists.");
            let fix = match via {
                Via::AccountsAdd => {
                    let mut f = cat(
                        "Pick a different name, or replace its key: twitter accounts add ",
                        existing.as_str(),
                    );
                    push_str(&mut f, " --api-key <key> --force");
                    f
                },
                Via::Login => {
                    let mut f = cat("Use --force to replace its key: twitter login ", existing.as_str());
                    push_str(&mut f, " --force");
                    f
                },
            };
            Err(Error::invalid(message).fix(fix))
        },
    }
}

/// The key read from standard input (`--api-key-stdin`): its line, trimmed; blank is refused.
pub fn stdin_key(line: &str) -> (r: Result<String, Error>)
    ensures
        blank(line@) ==> (r matches Err(e) && invalid_error(
            e,
            "--api-key-stdin was given but stdin was empty."@,
            None,
        )),
        !blank(line@) ==> (r matches Ok(k) && k@ == trimmed(line@)),
{
    let k = trim(line);
    if k.as_str().is_empty() {
        return Err(error_with(ErrorCode::InvalidInput, "--api-key-stdin was given but stdin was empty."));
    }
    Ok(k)
}

/// The error when standard input could not be read.
pub fn stdin_error(cause: &str) -> (e: Error)
    ensures
        invalid_error(e, "Could not read stdin: "@ + cause@, None),
{
    Error::invalid(cat("Could not read stdin: ", cause))
}

/// The error when a key would have to be prompted for but there is no terminal.
pub fn no_terminal(via: Via, name: &str) -> (e: Error)
    ensures
        invalid_error(
            e,
            "No API key given and no terminal to prompt on."@,
            Some(
                match via {
                    Via::AccountsAdd => "pbpaste | twitter accounts add "@ + name@ + " --api-key-stdin"@,
                    Via::Login => "pbpaste | twitter login "@ + name@ + " --api-key-stdin"@,
                },
            ),
        ),
{
    let mut fix = match via {
        Via::AccountsAdd => cat("pbpaste | twitter accounts add ", name),
        Via::Login => cat("pbpaste | twitter login ", name),
    };
    push_str(&mut fix, " --api-key-stdin");
    error_with(ErrorCode::InvalidInput, "No API key given and no terminal to prompt on.").fix(fix)
}

/// The prompt for a key.
pub fn key_prompt(via: Via, name: &str) -> (r: String)
    ensures
        r@ == match via {
            Via::AccountsAdd => "Apify API token for "@ + name@ + ": "@,
            Via::Login => "Paste your Apify API token for '"@ + name@ + "': "@,
        },
{
    let mut p = match via {
        Via::AccountsAdd => cat("Apify API token for ", name),
        Via::Login => cat("Paste your Apify API token for '", name),
    };
    match via {
        Via::AccountsAdd => push_str(&mut p, ": "),
        Via::Login => push_str(&mut p, "': "),
    }
    p
}

/// The note printed after an empty answer to the prompt.
pub fn empty_answer_note(via: Via) -> (r: &'static str)
    ensures
        r@ == match via {
            Via::AccountsAdd => "Cannot be empty"@,
            Via::Login => "Token cannot be empty. Paste your Apify API token from https://console.apify.com/account/integrations"@,
        },
{
    match via {
        Via::AccountsAdd => "Cannot be empty",
        Via::Login => "Token cannot be empty. Paste your Apify API token from https://console.apify.com/account/integrations",
    }
}

/// The key typed at the prompt, trimmed; `None` for a blank answer, which is asked again.
pub fn prompted_key(answer: &str) -> (r: Option<String>)
    ensures
        opt_text(r) == given(Some(answer)),
{
    given_text(Some(answer))
}

/// The error when the prompt itself failed.
pub fn prompt_failure(cause: String) -> (e: Error)
    ensures
        e.code == ErrorCode::Error,
        e.message@ == "Could not read the API key."@,
        opt_text(e.detail) == Some(cause@),
        e.remediation is None,
{
    error_with(ErrorCode::Error, "Could not read the API key.").detail(cause)
}

/// Records the account `name` with what was observed of its key and when.
pub fn record(config: &mut Config, name: String, identity: String, plan: String, added_at: String)
    ensures
        final(config).version == old(config).version,
        forall|i: int|
            0 <= i < account_entries(old(config).accounts).len() && account_entries(old(config).accounts)[i].0 == name@
                ==> account_entries(final(config).accounts) == account_entries(old(config).accounts).update(
                i,
                (name@, AccountView { identity: identity@, plan: plan@, added_at: added_at@ }),
            ),
        (forall|i: int|
            0 <= i < account_entries(old(config).accounts).len() ==> account_entries(old(config).accounts)[i].0 != name@)
            ==> account_entries(final(config).accounts) == account_entries(old(config).accounts).push(
            (name@, AccountView { identity: identity@, plan: plan@, added_at: added_at@ }),
        ),
{
    config.insert(name, AccountConfig { identity, plan, added_at });
}

/// An account added under the name `add_target` chose is what looking the requested name up
/// finds afterwards.
pub proof fn lemma_lookup_after_add(
    es: Seq<(Seq<char>, AccountView)>,
    requested: Seq<char>,
    name: Seq<char>,
    record: AccountView,
    after: Seq<(Seq<char>, AccountView)>,
)
    requires
        (no_match(es, requested) && name == requested && after == es.push((name, record)))
            || exists|i: int|
            #[trigger] is_first_match(es, requested, i) && name == es[i].0 && after == es.update(
                i,
                (name, record),
            ),
    ensures
        exists|j: int| #[trigger] is_first_match(after, requested, j) && after[j] == (name, record),
{
    assert(eq_ascii_nocase(requested, requested));
    if no_match(es, requested) && name == requested && after == es.push((name, record)) {
        let j = es.len() as int;
        assert(is_first_match(after, requested, j));
    } else {
        let i = choose|i: int|
            #[trigger] is_first_match(es, requested, i) && name == es[i].0 && after == es.update(
                i,
                (name, record),
            );
        assert(is_first_match(after, requested, i));
    }
}

/// What `accounts add` and `login` report.
pub open spec fn added_form(
    via: Via,
    replaced: bool,
    name: Seq<char>,
    identity: Seq<char>,
    plan: Seq<char>,
    verified: bool,
    store: Store,
    config_dir: Seq<char>,
) -> Seq<(Seq<char>, Shape)> {
    seq![
        ("status"@, Shape::Text(match via {
            Via::Login => "logged_in"@,
            Via::AccountsAdd => if replaced {
                "replaced"@
            } else {
                "added"@
            },
        })),
        ("name"@, Shape::Text(name)),
        ("identity"@, Shape::Text(identity)),
        ("plan"@, Shape::Text(plan)),
        ("verified"@, Shape::Flag(verified)),
        ("secretStore"@, Shape::Text(spec_store_name(store))),
        ("configDir"@, Shape::Text(config_dir)),
        ("nextStep"@, Shape::Text("twitter search \"agentic coding\" --account "@ + name)),
    ]
}

/// The report of an added (or replaced) account.
pub fn added_report(
    via: Via,
    replaced: bool,
    name: &str,
    identity: &str,
    plan: &str,
    verified: bool,
    store: Store,
    config_dir: &str,
) -> (r: Json)
    ensures
        object_is(r, added_form(via, replaced, name@, identity@, plan@, verified, store, config_dir@)),
{
    let status = match via {
        Via::Login => "logged_in",
        Via::AccountsAdd => if replaced {
            "replaced"
        } else {
            "added"
        },
    };
    let ghost st = match via {
        Via::Login => "logged_in"@,
        Via::AccountsAdd => if replaced {
            "replaced"@
        } else {
            "added"@
        },
    };
    let mut ms: Vec<(String, Json)> = Vec::new();
    let ghost f = Seq::<(Seq<char>, Shape)>::empty();
    proof {
        lemma_follows_empty(ms@);
    }
    put_shaped(&mut ms, "status", text(status), Ghost(f), Ghost(Shape::Text(st)));
    let ghost f = f.push(("status"@, Shape::Text(st)));
    put_shaped(&mut ms, "name", text(name), Ghost(f), Ghost(Shape::Text(name@)));
    let ghost f = f.push(("name"@, Shape::Text(name@)));
    put_shaped(&mut ms, "identity", text(identity), Ghost(f), Ghost(Shape::Text(identity@)));
    let ghost f = f.push(("identity"@, Shape::Text(identity@)));
    put_shaped(&mut ms, "plan", text(plan), Ghost(f), Ghost(Shape::Text(plan@)));
    let ghost f = f.push(("plan"@, Shape::Text(plan@)));
    put_shaped(&mut ms, "verified", Json::Bool(verified), Ghost(f), Ghost(Shape::Flag(verified)));
    let ghost f = f.push(("verified"@, Shape::Flag(verified)));
    put_shaped(&mut ms, "secretStore", text(store.name()), Ghost(f), Ghost(Shape::Text(spec_store_name(store))));
    let ghost f = f.push(("secretStore"@, Shape::Text(spec_store_name(store))));
    put_shaped(&mut ms, "configDir", text(config_dir), Ghost(f), Ghost(Shape::Text(config_dir@)));
    let ghost f = f.push(("configDir"@, Shape::Text(config_dir@)));
    let next = cat("twitter search \"agentic coding\" --account ", name);
    let ghost nx = "twitter search \"agentic coding\" --account "@ + name@;
    put_shaped(&mut ms, "nextStep", Json::Str(next), Ghost(f), Ghost(Shape::Text(nx)));
    let ghost f = f.push(("nextStep"@, Shape::Text(nx)));
    assert(f =~= added_form(via, replaced, name@, identity@, plan@, verified, store, config_dir@));
    Json::Object(ms)
}

/// The status of an account's key in a listing.
pub open spec fn key_status(stored: Result<Option<String>, Error>, checked: Option<Result<Json, Error>>) -> Seq<char> {
    match stored {
        Ok(Some(k)) => if blank(k@) {
            "missing_key"@
        } else {
            match checked {
                None => "stored"@,
                Some(Ok(_)) => "valid"@,
                Some(Err(e)) => if e.code == ErrorCode::AuthRequired {
                    "rejected"@
                } else {
                    "unreachable"@
                },
            }
        },
        Ok(None) => "missing_key"@,
        Err(_) => "unreadable"@,
    }
}

/// The stored key worth checking: present and not blank.
pub fn usable_key(stored: &Result<Option<String>, Error>) -> (r: Option<&String>)
    ensures
        r matches Some(k) ==> stored matches Ok(Some(s)) && *k == s && !blank(k@),
        r is None ==> !(stored matches Ok(Some(s)) && !blank(s@)),
{
    match stored {
        Ok(Some(k)) => if is_blank(k.as_str()) {
            None
        } else {
            Some(k)
        },
        _ => None,
    }
}

/// The key status shown by `accounts list`: `stored`, or with `--check` `valid`, `rejected`
/// or `unreachable` after asking the API; `missing_key` or `unreadable` when there is no key
/// to check. `checked` is the answer of `users/me`, when it was asked.
pub fn status_of(stored: &Result<Option<String>, Error>, checked: Option<&Result<Json, Error>>) -> (r: String)
    ensures
        r@ == key_status(
            *stored,
            match checked {
                Some(c) => Some(*c),
                None => None,
            },
        ),
{
    match stored {
        Ok(Some(k)) => {
            if is_blank(k.as_str()) {
                return String::from_str("missing_key");
            }
        },
        Ok(None) => return String::from_str("missing_key"),
        Err(_) => return String::from_str("unreadable"),
    }
    match checked {
        None => String::from_str("stored"),
        Some(Ok(_)) => String::from_str("valid"),
        Some(Err(e)) => if e.code == ErrorCode::AuthRequired {
            String::from_str("rejected")
        } else {
            String::from_str("unreachable")
        },
    }
}

/// One account as `accounts list` shows it.
pub open spec fn listed_form(name: Seq<char>, a: AccountView, status: Seq<char>) -> Seq<(Seq<char>, Shape)> {
    seq![
        ("name"@, Shape::Text(name)),
        ("identity"@, Shape::Text(a.identity)),
        ("plan"@, Shape::Text(a.plan)),
        ("addedAt"@, Shape::Text(a.added_at)),
        ("keyStatus"@, Shape::Text(status)),
    ]
}

/// What `accounts list` reports.
pub open spec fn list_form(n: nat, store: Store, config_dir: Seq<char>) -> Seq<(Seq<char>, Shape)> {
    seq![
        ("count"@, Shape::Num(crate::text::decimal(n))),
        ("accounts"@, Shape::Items(n)),
        ("secretStore"@, Shape::Text(spec_store_name(store))),
        ("configDir"@, Shape::Text(config_dir)),
    ]
}

fn listed(name: &String, a: &AccountConfig, status: &String) -> (r: Json)
    ensures
        object_is(r, listed_form(name@, a@, status@)),
{
    let mut ms: Vec<(String, Json)> = Vec::new();
    let ghost f = Seq::<(Seq<char>, Shape)>::empty();
    proof {
        lemma_follows_empty(ms@);
    }
    put_shaped(&mut ms, "name", Json::Str(name.clone()), Ghost(f), Ghost(Shape::Text(name@)));
    let ghost f = f.push(("name"@, Shape::Text(name@)));
    put_shaped(&mut ms, "identity", Json::Str(a.identity.clone()), Ghost(f), Ghost(Shape::Text(a.identity@)));
    let ghost f = f.push(("identity"@, Shape::Text(a.identity@)));
    put_shaped(&mut ms, "plan", Json::Str(a.plan.clone()), Ghost(f), Ghost(Shape::Text(a.plan@)));
    let ghost f = f.push(("plan"@, Shape::Text(a.plan@)));
    put_shaped(&mut ms, "addedAt", Json::Str(a.added_at.clone()), Ghost(f), Ghost(Shape::Text(a.added_at@)));
    let ghost f = f.push(("addedAt"@, Shape::Text(a.added_at@)));
    put_shaped(&mut ms, "keyStatus", Json::Str(status.clone()), Ghost(f), Ghost(Shape::Text(status@)));
    let ghost f = f.push(("keyStatus"@, Shape::Text(status@)));
    assert(f =~= listed_form(name@, a@, status@));
    Json::Object(ms)
}

/// The report of `accounts list`: the accounts in listing order, each with its key status.
pub fn list_report(listing: &Vec<(String, AccountConfig)>, statuses: &Vec<String>, store: Store, config_dir: &str) -> (r: Json)
    requires
        listing@.len() == statuses@.len(),
    ensures
        object_is(r, list_form(listing@.len() as nat, store, config_dir@)),
        field(r, 1) matches Json::Array(items) && forall|k: int|
            0 <= k < listing@.len() ==> #[trigger] object_is(
                items@[k],
                listed_form(listing@[k].0@, listing@[k].1@, statuses@[k]@),
            ),
{
    let mut items: Vec<Json> = Vec::new();
    let mut k: usize = 0;
    while k < listing.len()
        invariant
            listing@.len() == statuses@.len(),
            k <= listing@.len(),
            items@.len() == k,
            forall|j: int|
                0 <= j < k ==> #[trigger] object_is(
                    items@[j],
                    listed_form(listing@[j].0@, listing@[j].1@, statuses@[j]@),
                ),
        decreases listing.len() - k,
    {
        items.push(listed(&listing[k].0, &listing[k].1, &statuses[k]));
        k = k + 1;
    }
    let ghost all = items@;
    let n = listing.len();
    let mut ms: Vec<(String, Json)> = Vec::new();
    let ghost f = Seq::<(Seq<char>, Shape)>::empty();
    proof {
        lemma_follows_empty(ms@);
    }
    put_shaped(&mut ms, "count", number(n), Ghost(f), Ghost(Shape::Num(crate::text::decimal(n as nat))));
    let ghost f = f.push(("count"@, Shape::Num(crate::text::decimal(n as nat))));
    let arr = Json::Array(items);
    let ghost arr_v = arr;
    assert(arr_v matches Json::Array(v) && v@ == all);
    put_shaped(&mut ms, "accounts", arr, Ghost(f), Ghost(Shape::Items(n as nat)));
    let ghost ms2 = ms@;
    let ghost f = f.push(("accounts"@, Shape::Items(n as nat)));
    put_shaped(&mut ms, "secretStore", text(store.name()), Ghost(f), Ghost(Shape::Text(spec_store_name(store))));
    let ghost f = f.push(("secretStore"@, Shape::Text(spec_store_name(store))));
    let ghost ms3 = ms@;
    put_shaped(&mut ms, "configDir", text(config_dir), Ghost(f), Ghost(Shape::Text(config_dir@)));
    let ghost f = f.push(("configDir"@, Shape::Text(config_dir@)));
    assert(f =~= list_form(n as nat, store, config_dir@));
    proof {
        reveal(follows);
        assert(ms2[1].1 == arr_v);
        assert(ms3.drop_last()[1] == ms3[1]);
        assert(ms@.drop_last()[1] == ms@[1]);
    }
    Json::Object(ms)
}

/// The warning when the key now reports a different identity than it was added with (both
/// known, and not equal up to ASCII case).
pub open spec fn spec_drift(recorded: Seq<char>, current: Seq<char>) -> Option<Seq<char>> {
    if !blank(recorded) && !blank(current) && !eq_ascii_nocase(current, recorded) {
        Some(
            "This account was added as "@ + recorded + ", but the stored key now reports "@ + current
                + "."@,
        )
    } else {
        None
    }
}

/// Whether the identity behind a key changed since it was added.
pub fn drift(recorded: &str, current: &str) -> (r: Option<String>)
    ensures
        opt_text(r) == spec_drift(recorded@, current@),
{
    if !is_blank(recorded) && !is_blank(current) && !eq_ignore_ascii_case(current, recorded) {
        let mut w = cat("This account was added as ", recorded);
        push_str(&mut w, ", but the stored key now reports ");
        push_str(&mut w, current);
        push_str(&mut w, ".");
        Some(w)
    } else {
        None
    }
}

/// An identity never drifts from itself.
pub proof fn lemma_no_self_drift(identity: Seq<char>)
    ensures
        spec_drift(identity, identity) is None,
{
}

/// Drift is a change of identity up to ASCII case: when both identities are known (not
/// blank), there is a warning exactly when they differ other than in ASCII case, and the warning
/// names the recorded identity first and the current one after; when either is unknown there is
/// none.
pub proof fn lemma_drift_iff_identity_changed(recorded: Seq<char>, current: Seq<char>)
    ensures
        (blank(recorded) || blank(current)) ==> spec_drift(recorded, current) is None,
        (!blank(recorded) && !blank(current)) ==> (spec_drift(recorded, current) is None
            <==> eq_ascii_nocase(current, recorded)),
        spec_drift(recorded, current) matches Some(w) ==> w == "This account was added as "@
            + recorded + ", but the stored key now reports "@ + current + "."@,
{
}

/// What `accounts test` reports, before any warning.
pub open spec fn tested_form(name: Seq<char>, identity: Seq<char>, plan: Seq<char>, me: Json) -> Seq<(Seq<char>, Shape)> {
    seq![
        ("name"@, Shape::Text(name)),
        ("identity"@, Shape::Text(identity)),
        ("plan"@, Shape::Text(plan)),
        ("keyStatus"@, Shape::Text("valid"@)),
        ("me"@, Shape::Is(me)),
    ]
}

/// The report of `accounts test`: the account, what its key reports now, and a warning when
/// that differs from what it was added with.
pub fn test_report(name: &str, recorded: &str, me: Json) -> (r: Json)
    ensures
        ({
            let ident = crate::account::identity::spec_describe(me);
            let plan = crate::account::identity::spec_plan(me);
            let base = tested_form(name@, ident, plan, me);
            match spec_drift(recorded@, ident) {
                Some(w) => object_is(r, base.push(("warning"@, Shape::Text(w)))),
                None => object_is(r, base),
            }
        }),
{
    let ident = crate::account::identity::describe(&me);
    let plan = crate::account::identity::plan(&me);
    let warning = drift(recorded, ident.as_str());
    let ghost me_v = me;
    let mut ms: Vec<(String, Json)> = Vec::new();
    let ghost f = Seq::<(Seq<char>, Shape)>::empty();
    proof {
        lemma_follows_empty(ms@);
    }
    put_shaped(&mut ms, "name", text(name), Ghost(f), Ghost(Shape::Text(name@)));
    let ghost f = f.push(("name"@, Shape::Text(name@)));
    put_shaped(&mut ms, "identity", Json::Str(ident), Ghost(f), Ghost(Shape::Text(crate::account::identity::spec_describe(me_v))));
    let ghost f = f.push(("identity"@, Shape::Text(crate::account::identity::spec_describe(me_v))));
    put_shaped(&mut ms, "plan", Json::Str(plan), Ghost(f), Ghost(Shape::Text(crate::account::identity::spec_plan(me_v))));
    let ghost f = f.push(("plan"@, Shape::Text(crate::account::identity::spec_plan(me_v))));
    put_shaped(&mut ms, "keyStatus", text("valid"), Ghost(f), Ghost(Shape::Text("valid"@)));
    let ghost f = f.push(("keyStatus"@, Shape::Text("valid"@)));
    put_shaped(&mut ms, "me", me, Ghost(f), Ghost(Shape::Is(me_v)));
    let ghost f = f.push(("me"@, Shape::Is(me_v)));
    assert(f =~= tested_form(name@, crate::account::identity::spec_describe(me_v), crate::account::identity::spec_plan(me_v), me_v));
    if let Some(w) = warning {
        let ghost wv = w@;
        put_shaped(&mut ms, "warning", Json::Str(w), Ghost(f), Ghost(Shape::Text(wv)));
    }
    Json::Object(ms)
}

/// The account `accounts remove` removes: the configured one matching `requested` up to ASCII
/// case, or an error.
pub fn remove_target(requested: &str, config: &Config) -> (r: Result<(String, AccountConfig), Error>)
    ensures
        ({
            let es = account_entries(config.accounts);
            if no_match(es, requested@) {
                r matches Err(e) && e.code == ErrorCode::NoAccount && e.message@ == "No account named '"@
                    + requested@ + "'."@ && e.detail is None && opt_text(e.remediation) == Some(
                    "twitter accounts list"@,
                )
            } else {
                exists|i: int|
                    #[trigger] is_first_match(es, requested@, i) && (r matches Ok(p) && p.0@
                        == es[i].0 && p.1@ == es[i].1)
            }
        }),
{
    match config.find(requested) {
        Some(found) => Ok(found),
        None => {
            let mut message = cat("No account named '", requested);
            push_str(&mut message, "'.");
            Err(Error::new(ErrorCode::NoAccount, message).fix(String::from_str("twitter accounts list")))
        },
    }
}

/// The error when a removal needs confirmation but there is no terminal to ask on.
pub fn confirmation_unavailable(name: &str) -> (e: Error)
    ensures
        invalid_error(
            e,
            "Removing '"@ + name@ + "' needs confirmation and there is no terminal to ask on."@,
            Some("twitter accounts remove "@ + name@ + " --yes"@),
        ),
{
    let mut message = cat("Removing '", name);
    push_str(&mut message, "' needs confirmation and there is no terminal to ask on.");
    let mut fix = cat("twitter accounts remove ", name);
    push_str(&mut fix, " --yes");
    Error::invalid(message).fix(fix)
}

/// The confirmation question for removing an account.
pub fn confirm_prompt(name: &String, account: &AccountConfig) -> (r: String)
    ensures
        r@ == "Remove account "@ + account_label((name@, account@)) + "? [y/N] "@,
{
    let l = label(name, account);
    let mut p = cat("Remove account ", l.as_str());
    push_str(&mut p, "? [y/N] ");
    p
}

/// Whether an answer confirms: `y` or `yes` in any case, surrounding whitespace ignored.
pub fn confirmed(answer: &str) -> (r: bool)
    ensures
        r == (lowercase(trimmed(answer@)) == "y"@ || lowercase(trimmed(answer@)) == "yes"@),
{
    let t = trim(answer);
    let l = to_lowercase(t.as_str());
    str_eq(l.as_str(), "y") || str_eq(l.as_str(), "yes")
}

/// The error for a removal that was not confirmed.
pub fn cancelled() -> (e: Error)
    ensures
        invalid_error(e, "Cancelled."@, None),
{
    error_with(ErrorCode::InvalidInput, "Cancelled.")
}

/// Drops account `name` (as stored) from the configuration.
pub fn forget(config: &mut Config, name: &String)
    ensures
        final(config).version == old(config).version,
        forall|i: int|
            0 <= i < account_entries(old(config).accounts).len() && account_entries(old(config).accounts)[i].0 == name@
                ==> account_entries(final(config).accounts) == account_entries(old(config).accounts).remove(i),
        (forall|i: int|
            0 <= i < account_entries(old(config).accounts).len() ==> account_entries(old(config).accounts)[i].0 != name@)
            ==> account_entries(final(config).accounts) == account_entries(old(config).accounts),
{
    config.remove(name);
}

/// After an account is forgotten no entry carries its name, and the others keep their order.
pub proof fn lemma_gone_after_forget(es: Seq<(Seq<char>, AccountView)>, i: int)
    requires
        crate::config::names_distinct(es),
        0 <= i < es.len(),
    ensures
        forall|j: int| 0 <= j < es.remove(i).len() ==> (#[trigger] es.remove(i)[j]).0 != es[i].0,
        es.remove(i) == es.take(i) + es.skip(i + 1),
{
    assert forall|j: int| 0 <= j < es.remove(i).len() implies (#[trigger] es.remove(i)[j]).0 != es[i].0 by {
        if j < i {
            assert(es.remove(i)[j] == es[j]);
        } else {
            assert(es.remove(i)[j] == es[j + 1]);
        }
    }
    assert(es.remove(i) =~= es.take(i) + es.skip(i + 1));
}

/// Removing an account that was just added under a new name leaves the accounts as they were.
pub proof fn lemma_forget_undoes_record(
    es: Seq<(Seq<char>, AccountView)>,
    name: Seq<char>,
    record: AccountView,
    after: Seq<(Seq<char>, AccountView)>,
    back: Seq<(Seq<char>, AccountView)>,
)
    requires
        forall|i: int| 0 <= i < es.len() ==> (#[trigger] es[i]).0 != name,
        after == es.push((name, record)),
        forall|i: int| 0 <= i < after.len() && (#[trigger] after[i]).0 == name ==> back == after.remove(i),
    ensures
        back == es,
{
    assert(after[es.len() as int].0 == name);
    assert(after.remove(es.len() as int) =~= es);
}

/// What `accounts remove` reports.
pub open spec fn removed_form(name: Seq<char>, identity: Seq<char>) -> Seq<(Seq<char>, Shape)> {
    seq![
        ("status"@, Shape::Text("removed"@)),
        ("name"@, Shape::Text(name)),
        ("identity"@, Shape::Text(identity)),
        ("note"@, Shape::Text("The API token was deleted locally. Revoke it at https://console.apify.com/account/integrations if it should stop working everywhere."@)),
    ]
}

/// The report of a removed account.
pub fn removed_report(name: &str, identity: &str) -> (r: Json)
    ensures
        object_is(r, removed_form(name@, identity@)),
{
    let mut ms: Vec<(String, Json)> = Vec::new();
    let ghost f = Seq::<(Seq<char>, Shape)>::empty();
    proof {
        lemma_follows_empty(ms@);
    }
    put_shaped(&mut ms, "status", text("removed"), Ghost(f), Ghost(Shape::Text("removed"@)));
    let ghost f = f.push(("status"@, Shape::Text("removed"@)));
    put_shaped(&mut ms, "name", text(name), Ghost(f), Ghost(Shape::Text(name@)));
    let ghost f = f.push(("name"@, Shape::Text(name@)));
    put_shaped(&mut ms, "identity", text(identity), Ghost(f), Ghost(Shape::Text(identity@)));
    let ghost f = f.push(("identity"@, Shape::Text(identity@)));
    let note = "The API token was deleted locally. Revoke it at https://console.apify.com/account/integrations if it should stop working everywhere.";
    put_shaped(&mut ms, "note", text(note), Ghost(f), Ghost(Shape::Text(note@)));
    let ghost f = f.push(("note"@, Shape::Text(note@)));
    assert(f =~= removed_form(name@, identity@));
    Json::Object(ms)
}

} // verus!
