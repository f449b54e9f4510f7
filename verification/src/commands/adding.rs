//! Adding an account (`accounts add` and `login`) as a sequence of steps. Each step takes what
//! the caller just did (read standard input, loaded the backend and the configuration, asked
//! for the key, asked `users/me`, saved) and says what to do next, until the report or an error.

use vstd::prelude::*;

use crate::account::identity::{describe, plan, spec_describe, spec_plan};
use crate::client::{spec_base, Client, Method, Request};
use crate::commands::accounts::{
    account_name, add_target, added_form, added_report, invalid_error, key_prompt, no_terminal,
    prompted_key, stdin_error, stdin_key, target_ok, Via,
};
use crate::commands::login::{login_message, spec_login_message};
use crate::account::{given_text, given_view};
use crate::config::Config;
use crate::error::{opt_text, Error};
use crate::json::{object_is, Json};
use crate::secrets::Store;
use crate::text::{blank, trimmed};

verus! {

/// What `accounts add` or `login` was asked to do.
#[derive(Debug)]
pub struct AddRequest {
    pub via: Via,
    pub name: String,
    pub api_key: Option<String>,
    pub api_key_stdin: bool,
    pub force: bool,
    pub skip_verify: bool,
    /// The `APIFY_API_URL` setting.
    pub api_base: Option<String>,
    /// The config directory, as the report shows it.
    pub config_dir: String,
}

/// Where adding an account stands.
#[derive(Debug)]
pub enum AddState {
    /// Nothing done yet.
    Start,
    /// `accounts add --api-key-stdin` reads the key before anything else.
    ReadingFirst,
    /// Waiting for the backend and the configuration; the key, if it was read already.
    Loading { name: String, read_key: Option<String> },
    /// The name is settled; waiting for the key from standard input.
    ReadingKey { name: String, replaced: bool, store: Store },
    /// The name is settled; waiting for the key typed at the prompt.
    Asking { name: String, replaced: bool, store: Store },
    /// Waiting for `users/me` to answer for the key.
    Verifying { name: String, replaced: bool, store: Store, key: String },
    /// Waiting for the key and the record to be saved.
    Saving { name: String, replaced: bool, store: Store, identity: String, plan: String },
    /// Finished, with a report or an error.
    Done,
}

/// What the caller did.
#[derive(Debug)]
pub enum AddEvent {
    /// Start.
    Begin,
    /// A line was read from standard input, or reading failed (its message).
    StdinLine(Result<String, String>),
    /// The backend and the configuration were loaded.
    Loaded(Store, Config),
    /// The answer typed at the prompt.
    Answer(String),
    /// There is no terminal to prompt on.
    NoTerminal,
    /// What `users/me` answered.
    MeAnswered(Result<Json, Error>),
    /// The key is in the backend and the account in the configuration.
    Saved,
}

/// What to do next.
#[derive(Debug)]
pub enum AddAction {
    /// Read a line from standard input.
    ReadStdin,
    /// Choose the backend and load the configuration.
    Load,
    /// Ask for the key with `prompt`; `retry` after a blank answer. When there is no terminal,
    /// answer `NoTerminal`.
    Ask { prompt: String, retry: bool },
    /// Send this request (`users/me` with the key).
    Verify(Request),
    /// Store `key` under the account's entry in `store`, and record the account with what was
    /// observed of the key, under the config lock.
    Save { store: Store, name: String, key: String, identity: String, plan: String },
    /// Print the report, and the note on the terminal, if any.
    Finish { report: Json, note: Option<String> },
    /// Stop with this error.
    Fail(Error),
}

/// The event is one the state is waiting for.
pub open spec fn awaits(s: AddState, e: AddEvent) -> bool {
    match s {
        AddState::Start => e is Begin,
        AddState::ReadingFirst => e is StdinLine,
        AddState::Loading { .. } => e is Loaded,
        AddState::ReadingKey { .. } => e is StdinLine,
        AddState::Asking { .. } => e is Answer || e is NoTerminal,
        AddState::Verifying { .. } => e is MeAnswered,
        AddState::Saving { .. } => e is Saved,
        AddState::Done => false,
    }
}

/// Whether `e` is an event that `s` waits for.
pub fn accepts(s: &AddState, e: &AddEvent) -> (r: bool)
    ensures
        r == awaits(*s, *e),
{
    match s {
        AddState::Start => matches!(e, AddEvent::Begin),
        AddState::ReadingFirst => matches!(e, AddEvent::StdinLine(_)),
        AddState::Loading { .. } => matches!(e, AddEvent::Loaded(_, _)),
        AddState::ReadingKey { .. } => matches!(e, AddEvent::StdinLine(_)),
        AddState::Asking { .. } => matches!(e, AddEvent::Answer(_)) || matches!(e, AddEvent::NoTerminal),
        AddState::Verifying { .. } => matches!(e, AddEvent::MeAnswered(_)),
        AddState::Saving { .. } => matches!(e, AddEvent::Saved),
        AddState::Done => false,
    }
}

/// Stopping with error `err`.
pub open spec fn fails_with(r: (AddState, AddAction), err: Error) -> bool {
    r.0 is Done && r.1 == AddAction::Fail(err)
}

/// Stopping with an invalid-input error.
pub open spec fn refuses(r: (AddState, AddAction), message: Seq<char>, fix: Option<Seq<char>>) -> bool {
    &&& r.0 is Done
    &&& r.1 matches AddAction::Fail(err) && invalid_error(err, message, fix)
}

/// With the key in hand: ask `users/me` about it, or, when verification is skipped, save it
/// with nothing observed.
pub open spec fn keyed(req: AddRequest, name: Seq<char>, replaced: bool, store: Store, key: Seq<char>, r: (AddState, AddAction)) -> bool {
    if req.skip_verify {
        &&& r.0 matches AddState::Saving { name: n, replaced: rp, store: s, identity: i, plan: p }
            && n@ == name && rp == replaced && s == store && i@.len() == 0 && p@.len() == 0
        &&& r.1 matches AddAction::Save { store: s, name: n, key: k, identity: i, plan: p }
            && s == store && n@ == name && k@ == key && i@.len() == 0 && p@.len() == 0
    } else {
        &&& r.0 matches AddState::Verifying { name: n, replaced: rp, store: s, key: k }
            && n@ == name && rp == replaced && s == store && k@ == key
        &&& r.1 matches AddAction::Verify(q) && q.method == Method::Get && q.url@ == spec_base(
            opt_text(req.api_base),
        ) + "users/me"@ && q.authorization@ == "Bearer "@ + trimmed(key) && q.body is None
    }
}

/// The prompt for the key.
pub open spec fn asks(req: AddRequest, name: Seq<char>, replaced: bool, store: Store, retry: bool, r: (AddState, AddAction)) -> bool {
    &&& r.0 matches AddState::Asking { name: n, replaced: rp, store: s } && n@ == name && rp == replaced
        && s == store
    &&& r.1 matches AddAction::Ask { prompt: p, retry: again } && again == retry && p@ == match req.via {
        Via::AccountsAdd => "Apify API token for "@ + name + ": "@,
        Via::Login => "Paste your Apify API token for '"@ + name + "': "@,
    }
}

/// The step after the backend and the configuration were loaded: the name is checked against
/// the configured accounts, then the key comes from what was read already, standard input,
/// `--api-key`, or the prompt, in that order.
pub open spec fn loaded(req: AddRequest, name: Seq<char>, key: Option<Seq<char>>, store: Store, config: Config, r: (AddState, AddAction)) -> bool {
    exists|t: Result<(String, bool), Error>|
        #[trigger] target_ok(req.via, name, config, req.force, t) && match t {
            Err(err) => fails_with(r, err),
            Ok(p) => match key {
                Some(k) => keyed(req, p.0@, p.1, store, k, r),
                None => if req.via == Via::Login && req.api_key_stdin {
                    &&& r.0 matches AddState::ReadingKey { name: n, replaced: rp, store: s } && n@
                        == p.0@ && rp == p.1 && s == store
                    &&& r.1 is ReadStdin
                } else {
                    match given_view(opt_text(req.api_key)) {
                        Some(k) => keyed(req, p.0@, p.1, store, k, r),
                        None => asks(req, p.0@, p.1, store, false, r),
                    }
                },
            },
        }
}

/// What follows a line of standard input, read for `name`'s key.
pub open spec fn key_line(line: Result<String, String>, r: (AddState, AddAction), then: spec_fn(Seq<char>, (AddState, AddAction)) -> bool) -> bool {
    match line {
        Err(m) => refuses(r, "Could not read stdin: "@ + m@, None),
        Ok(l) => if blank(l@) {
            refuses(r, "--api-key-stdin was given but stdin was empty."@, None)
        } else {
            then(trimmed(l@), r)
        },
    }
}

/// One step of adding an account.
pub open spec fn add_next(req: AddRequest, s: AddState, e: AddEvent, r: (AddState, AddAction)) -> bool {
    match (s, e) {
        (AddState::Start, AddEvent::Begin) => if req.via == Via::AccountsAdd && req.api_key_stdin {
            r.0 is ReadingFirst && r.1 is ReadStdin
        } else if blank(req.name@) {
            refuses(r, "An account name is required."@, None)
        } else {
            &&& r.0 matches AddState::Loading { name: n, read_key: k } && n@ == trimmed(req.name@) && k is None
            &&& r.1 is Load
        },
        (AddState::ReadingFirst, AddEvent::StdinLine(line)) => key_line(
            line,
            r,
            |k: Seq<char>, r: (AddState, AddAction)|
                if blank(req.name@) {
                    refuses(r, "An account name is required."@, None)
                } else {
                    &&& r.0 matches AddState::Loading { name: n, read_key: Some(kk) } && n@ == trimmed(
                        req.name@,
                    ) && kk@ == k
                    &&& r.1 is Load
                },
        ),
        (AddState::Loading { name, read_key }, AddEvent::Loaded(store, config)) => loaded(
            req,
            name@,
            opt_text(read_key),
            store,
            config,
            r,
        ),
        (AddState::ReadingKey { name, replaced, store }, AddEvent::StdinLine(line)) => key_line(
            line,
            r,
            |k: Seq<char>, r: (AddState, AddAction)| keyed(req, name@, replaced, store, k, r),
        ),
        (AddState::Asking { name, replaced, store }, AddEvent::Answer(a)) => if blank(a@) {
            asks(req, name@, replaced, store, true, r)
        } else {
            keyed(req, name@, replaced, store, trimmed(a@), r)
        },
        (AddState::Asking { name, replaced, store }, AddEvent::NoTerminal) => refuses(
            r,
            "No API key given and no terminal to prompt on."@,
            Some(
                match req.via {
                    Via::AccountsAdd => "pbpaste | twitter accounts add "@ + name@ + " --api-key-stdin"@,
                    Via::Login => "pbpaste | twitter login "@ + name@ + " --api-key-stdin"@,
                },
            ),
        ),
        (AddState::Verifying { name, replaced, store, key }, AddEvent::MeAnswered(answer)) => match answer {
            Err(err) => fails_with(r, err),
            Ok(me) => {
                &&& r.0 matches AddState::Saving { name: n, replaced: rp, store: st, identity: i, plan: p }
                    && n == name && rp == replaced && st == store && i@ == spec_describe(me) && p@
                    == spec_plan(me)
                &&& r.1 matches AddAction::Save { store: st, name: n, key: k, identity: i, plan: p }
                    && st == store && n == name && k == key && i@ == spec_describe(me) && p@
                    == spec_plan(me)
            },
        },
        (AddState::Saving { name, replaced, store, identity, plan }, AddEvent::Saved) => {
            &&& r.0 is Done
            &&& r.1 matches AddAction::Finish { report, note } && object_is(
                report,
                added_form(
                    req.via,
                    replaced,
                    name@,
                    identity@,
                    plan@,
                    !req.skip_verify,
                    store,
                    req.config_dir@,
                ),
            ) && opt_text(note) == if req.via == Via::Login {
                Some(spec_login_message(identity@, name@))
            } else {
                None
            }
        },
        _ => false,
    }
}

/// A key is saved only once `users/me` has accepted it, unless checking was skipped: a step
/// that asks to save either answers a successful `users/me`, or runs with `--no-verify`.
pub proof fn lemma_saved_only_when_checked(req: AddRequest, s: AddState, e: AddEvent, r: (AddState, AddAction))
    requires
        add_next(req, s, e, r),
        r.1 is Save,
    ensures
        req.skip_verify || (s is Verifying && (e matches AddEvent::MeAnswered(Ok(_)))),
{
}

/// `accounts add --api-key-stdin` uses the line it reads: after a non-blank line (and a name
/// that is not blank), the key carried on to loading is that line, trimmed.
pub proof fn lemma_stdin_key_is_carried(req: AddRequest, line: String, r: (AddState, AddAction))
    requires
        add_next(req, AddState::ReadingFirst, AddEvent::StdinLine(Ok(line)), r),
        !blank(line@),
        !blank(req.name@),
    ensures
        r.0 matches AddState::Loading { read_key: Some(k), .. } && k@ == trimmed(line@),
        r.1 is Load,
{
}

/// A key already read is the key used: from loading with a read key, the step never asks for a
/// key; it stops with an error, or checks (or, with `--no-verify`, saves) exactly that key.
pub proof fn lemma_read_key_is_used(
    req: AddRequest,
    name: String,
    key: String,
    store: Store,
    config: Config,
    r: (AddState, AddAction),
)
    requires
        add_next(req, AddState::Loading { name, read_key: Some(key) }, AddEvent::Loaded(store, config), r),
    ensures
        !(r.1 is Ask),
        r.1 is Fail || (r.1 matches AddAction::Verify(q) && q.authorization@ == "Bearer "@ + trimmed(key@))
            || (r.1 matches AddAction::Save { key: k, .. } && k@ == key@),
{
    let t = choose|t: Result<(String, bool), Error>|
        #[trigger] target_ok(req.via, name@, config, req.force, t) && match t {
            Err(err) => fails_with(r, err),
            Ok(p) => keyed(req, p.0@, p.1, store, key@, r),
        };
}

/// A key given with `--api-key` (not blank, and no key read from standard input) is the key
/// used: the step after loading never asks; it stops with an error, or checks (or saves) exactly
/// that key, trimmed.
pub proof fn lemma_given_key_is_used(
    req: AddRequest,
    name: String,
    store: Store,
    config: Config,
    r: (AddState, AddAction),
)
    requires
        add_next(req, AddState::Loading { name, read_key: None }, AddEvent::Loaded(store, config), r),
        !(req.via == Via::Login && req.api_key_stdin),
        req.api_key matches Some(k) && !blank(k@),
    ensures
        !(r.1 is Ask),
        r.1 is Fail || (r.1 matches AddAction::Verify(q) && q.authorization@ == "Bearer "@ + trimmed(
            trimmed(req.api_key->Some_0@),
        )) || (r.1 matches AddAction::Save { key: k, .. } && k@ == trimmed(req.api_key->Some_0@)),
{
    let t = choose|t: Result<(String, bool), Error>|
        #[trigger] target_ok(req.via, name@, config, req.force, t) && match t {
            Err(err) => fails_with(r, err),
            Ok(p) => keyed(req, p.0@, p.1, store, trimmed(req.api_key->Some_0@), r),
        };
}

/// The key typed at the prompt is the key used, trimmed; a blank answer asks again.
pub proof fn lemma_typed_key_is_used(
    req: AddRequest,
    name: String,
    replaced: bool,
    store: Store,
    answer: String,
    r: (AddState, AddAction),
)
    requires
        add_next(req, AddState::Asking { name, replaced, store }, AddEvent::Answer(answer), r),
    ensures
        blank(answer@) ==> (r.1 matches AddAction::Ask { retry, .. } && retry),
        !blank(answer@) ==> ((r.1 matches AddAction::Verify(q) && q.authorization@ == "Bearer "@
            + trimmed(trimmed(answer@))) || (r.1 matches AddAction::Save { key: k, name: n, .. }
            && k@ == trimmed(answer@) && n@ == name@)),
{
}

/// What is saved is the key that `users/me` just accepted, under the same name, with the
/// identity and plan that `users/me` reported.
pub proof fn lemma_checked_key_is_saved(
    req: AddRequest,
    name: String,
    replaced: bool,
    store: Store,
    key: String,
    me: Json,
    r: (AddState, AddAction),
)
    requires
        add_next(req, AddState::Verifying { name, replaced, store, key }, AddEvent::MeAnswered(Ok(me)), r),
    ensures
        r.1 matches AddAction::Save { store: st, name: n, key: k, identity: i, plan: p } && st == store
            && n == name && k == key && i@ == spec_describe(me) && p@ == spec_plan(me),
{
}

fn fail(err: Error) -> (r: (AddState, AddAction))
    ensures
        fails_with(r, err),
{
    (AddState::Done, AddAction::Fail(err))
}

fn base_of(req: &AddRequest) -> (r: Option<String>)
    ensures
        opt_text(r) == opt_text(req.api_base),
{
    match &req.api_base {
        Some(b) => Some(b.clone()),
        None => None,
    }
}

fn with_key(req: &AddRequest, name: String, replaced: bool, store: Store, key: String) -> (r: (AddState, AddAction))
    ensures
        keyed(*req, name@, replaced, store, key@, r),
{
    if req.skip_verify {
        (
            AddState::Saving { name: name.clone(), replaced, store, identity: String::new(), plan: String::new() },
            AddAction::Save { store, name, key, identity: String::new(), plan: String::new() },
        )
    } else {
        let q = Client::new(key.as_str(), base_of(req)).me();
        (AddState::Verifying { name, replaced, store, key }, AddAction::Verify(q))
    }
}

fn ask(req: &AddRequest, name: String, replaced: bool, store: Store, retry: bool) -> (r: (AddState, AddAction))
    ensures
        asks(*req, name@, replaced, store, retry, r),
{
    let prompt = key_prompt(req.via, name.as_str());
    (AddState::Asking { name, replaced, store }, AddAction::Ask { prompt, retry })
}

fn on_loaded(req: &AddRequest, name: String, key: Option<String>, store: Store, config: Config) -> (r: (AddState, AddAction))
    ensures
        loaded(*req, name@, opt_text(key), store, config, r),
{
    let t = add_target(req.via, name.as_str(), &config, req.force);
    let ghost tv = t;
    let r = match t {
        Err(err) => fail(err),
        Ok((n, replaced)) => match key {
            Some(k) => with_key(req, n, replaced, store, k),
            None => if req.via == Via::Login && req.api_key_stdin {
                (AddState::ReadingKey { name: n, replaced, store }, AddAction::ReadStdin)
            } else {
                let given = match &req.api_key {
                    Some(k) => given_text(Some(k.as_str())),
                    None => given_text(None),
                };
                match given {
                    Some(k) => with_key(req, n, replaced, store, k),
                    None => ask(req, n, replaced, store, false),
                }
            },
        },
    };
    assert(target_ok(req.via, name@, config, req.force, tv));
    r
}

/// One step of adding an account: what to do after event `e` in state `s`.
pub fn add_step(req: &AddRequest, s: AddState, e: AddEvent) -> (r: (AddState, AddAction))
    requires
        awaits(s, e),
    ensures
        add_next(*req, s, e, r),
{
    match (s, e) {
        (AddState::Start, AddEvent::Begin) => {
            if req.via == Via::AccountsAdd && req.api_key_stdin {
                return (AddState::ReadingFirst, AddAction::ReadStdin);
            }
            match account_name(req.name.as_str()) {
                Err(err) => fail(err),
                Ok(n) => (AddState::Loading { name: n, read_key: None }, AddAction::Load),
            }
        },
        (AddState::ReadingFirst, AddEvent::StdinLine(line)) => {
            let k = match line {
                Err(m) => return fail(stdin_error(m.as_str())),
                Ok(l) => match stdin_key(l.as_str()) {
                    Err(err) => return fail(err),
                    Ok(k) => k,
                },
            };
            match account_name(req.name.as_str()) {
                Err(err) => fail(err),
                Ok(n) => (AddState::Loading { name: n, read_key: Some(k) }, AddAction::Load),
            }
        },
        (AddState::Loading { name, read_key }, AddEvent::Loaded(store, config)) => on_loaded(
            req,
            name,
            read_key,
            store,
            config,
        ),
        (AddState::ReadingKey { name, replaced, store }, AddEvent::StdinLine(line)) => match line {
            Err(m) => fail(stdin_error(m.as_str())),
            Ok(l) => match stdin_key(l.as_str()) {
                Err(err) => fail(err),
                Ok(k) => with_key(req, name, replaced, store, k),
            },
        },
        (AddState::Asking { name, replaced, store }, AddEvent::Answer(a)) => match prompted_key(a.as_str()) {
            Some(k) => with_key(req, name, replaced, store, k),
            None => ask(req, name, replaced, store, true),
        },
        (AddState::Asking { name, replaced, store }, AddEvent::NoTerminal) => fail(no_terminal(req.via, name.as_str())),
        (AddState::Verifying { name, replaced, store, key }, AddEvent::MeAnswered(answer)) => match answer {
            Err(err) => fail(err),
            Ok(me) => {
                let identity = describe(&me);
                let plan = plan(&me);
                (
                    AddState::Saving { name: name.clone(), replaced, store, identity: identity.clone(), plan: plan.clone() },
                    AddAction::Save { store, name, key, identity, plan },
                )
            },
        },
        (AddState::Saving { name, replaced, store, identity, plan }, AddEvent::Saved) => {
            let report = added_report(
                req.via,
                replaced,
                name.as_str(),
                identity.as_str(),
                plan.as_str(),
                !req.skip_verify,
                store,
                req.config_dir.as_str(),
            );
            let note = if req.via == Via::Login {
                Some(login_message(identity.as_str(), name.as_str()))
            } else {
                None
            };
            (AddState::Done, AddAction::Finish { report, note })
        },
        _ => vstd::pervasive::unreached(),
    }
}

} // verus!
