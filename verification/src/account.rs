//! Multi-account management and token resolution.
//!
//! Explicit account flags (`--account <name>` / `-a <name>`) protect against multi-tenant
//! mistakes. For automation and one-off usage, `--api-key <key>` or the `APIFY_TOKEN`
//! environment variable are also supported.

pub mod identity;

use vstd::prelude::*;

use crate::config::{
    account_entries, sorted_listing, AccountConfig, AccountView, Config,
};
use crate::error::{error_with, opt_text, Error, ErrorCode};
use crate::text::{blank, cat, is_blank, push_str, trim, trimmed};

verus! {

/// An account to run a command against: its name, what is recorded of it, and its key.
#[derive(Debug)]
pub struct Resolved {
    pub name: String,
    pub config: AccountConfig,
    pub api_key: String,
}

impl Resolved {
    /// The API client for this account's key; `configured_base` is the `APIFY_API_URL` setting.
    pub fn client(&self, configured_base: Option<String>) -> (r: crate::client::Client)
        ensures
            r.api_key@ == trimmed(self.api_key@),
            r.base@ == crate::client::spec_base(opt_text(configured_base)),
    {
        crate::client::Client::new(self.api_key.as_str(), configured_base)
    }
}

/// The token variables of the environment: `APIFY_TOKEN` and `TWITTER_API_TOKEN`, where set.
#[derive(Debug)]
pub struct TokenEnv {
    pub apify_token: Option<String>,
    pub twitter_api_token: Option<String>,
}

/// Where resolving an account stands: done, failed, or waiting for the caller to load the
/// configuration or to read the stored key of account `name`.
#[derive(Debug)]
pub enum Resolution {
    Resolved(Resolved),
    NeedConfig,
    NeedKey { name: String, account: AccountConfig },
    Failed(Error),
}

/// `items` joined with `sep` between them.
pub open spec fn joined(items: Seq<Seq<char>>, sep: Seq<char>) -> Seq<char>
    decreases items.len(),
{
    if items.len() == 0 {
        Seq::empty()
    } else if items.len() == 1 {
        items[0]
    } else {
        joined(items.drop_last(), sep) + sep + items.last()
    }
}

/// An account as listed: its name, followed by its identity in parentheses when it has one.
pub open spec fn account_label(e: (Seq<char>, AccountView)) -> Seq<char> {
    if blank(e.1.identity) {
        e.0
    } else {
        e.0 + " ("@ + e.1.identity + ")"@
    }
}

/// The text shown when no account is configured.
pub open spec fn no_accounts_text() -> Seq<char> {
    "No accounts are configured yet. Run 'twitter login <name>' or 'twitter accounts add <name>'."@
}

/// `text` describes the accounts of `config`: their labels in listing order.
pub open spec fn describes(config: Config, text: Seq<char>) -> bool {
    let es = account_entries(config.accounts);
    if es.len() == 0 {
        text == no_accounts_text()
    } else {
        exists|listing: Seq<(Seq<char>, AccountView)>|
            #[trigger] sorted_listing(es, listing) && text == "Configured accounts: "@ + joined(
                listing.map_values(|e: (Seq<char>, AccountView)| account_label(e)),
                ", "@,
            )
    }
}

pub fn label(name: &String, account: &AccountConfig) -> (r: String)
    ensures
        r@ == account_label((name@, account@)),
{
    if is_blank(account.identity.as_str()) {
        name.clone()
    } else {
        let mut r = cat(name.as_str(), " (");
        push_str(&mut r, account.identity.as_str());
        push_str(&mut r, ")");
        r
    }
}

/// The configured accounts, for error details.
pub fn describe(config: &Config) -> (r: String)
    ensures
        describes(*config, r@),
{
    let listing = config.sorted();
    let ghost lv = crate::config::entries_view(listing@);
    if listing.len() == 0 {
        return String::from_str(
            "No accounts are configured yet. Run 'twitter login <name>' or 'twitter accounts add <name>'.",
        );
    }
    let ghost labels = lv.map_values(|e: (Seq<char>, AccountView)| account_label(e));
    let mut out = String::from_str("Configured accounts: ");
    let ghost prefix = out@;
    let mut i: usize = 0;
    while i < listing.len()
        invariant
            lv == crate::config::entries_view(listing@),
            labels == lv.map_values(|e: (Seq<char>, AccountView)| account_label(e)),
            listing@.len() > 0,
            i <= listing@.len(),
            out@ == prefix + joined(labels.take(i as int), ", "@),
        decreases listing.len() - i,
    {
        let piece = label(&listing[i].0, &listing[i].1);
        assert(labels[i as int] == piece@);
        assert(labels.take(i + 1).drop_last() == labels.take(i as int));
        if i > 0 {
            push_str(&mut out, ", ");
        } else {
            assert(labels.take(1) == seq![labels[0]]);
        }
        push_str(&mut out, piece.as_str());
        i = i + 1;
    }
    assert(labels.take(listing@.len() as int) == labels);
    proof {
        reveal_strlit("Configured accounts: ");
        assert(sorted_listing(account_entries(config.accounts), lv));
    }
    out
}

/// The message when neither an account nor a token was given.
pub open spec fn nothing_given_text() -> Seq<char> {
    "No account or API token specified. Pass --account <name>, --api-key <key>, or set APIFY_TOKEN."@
}

/// The token the environment supplies: `APIFY_TOKEN` when it is set, else `TWITTER_API_TOKEN`;
/// trimmed, and only if not blank.
pub open spec fn env_token(env: TokenEnv) -> Option<Seq<char>> {
    let set = match env.apify_token {
        Some(t) => Some(t@),
        None => opt_text(env.twitter_api_token),
    };
    match set {
        Some(t) => if blank(t) {
            None
        } else {
            Some(trimmed(t))
        },
        None => None,
    }
}

/// A resolved account.
pub open spec fn resolved_as(r: Resolution, name: Seq<char>, key: Seq<char>) -> bool {
    r matches Resolution::Resolved(a) && a.name@ == name && a.api_key@ == key && a.config.identity@.len()
        == 0 && a.config.plan@.len() == 0 && a.config.added_at@.len() == 0
}

/// The text of an optional argument.
pub open spec fn str_view(o: Option<&str>) -> Option<Seq<char>> {
    match o {
        Some(s) => Some(s@),
        None => None,
    }
}

/// The text of an optional argument, trimmed, when it is not blank.
pub open spec fn given_view(o: Option<Seq<char>>) -> Option<Seq<char>> {
    match o {
        Some(s) => if blank(s) {
            None
        } else {
            Some(trimmed(s))
        },
        None => None,
    }
}

/// The text of an optional argument, trimmed, when it is not blank.
pub open spec fn given(o: Option<&str>) -> Option<Seq<char>> {
    given_view(str_view(o))
}

/// What resolving gives: `--api-key` first; then, once the configuration is loaded, the named
/// account (whose key the caller then reads); then the environment's token; else an error.
pub open spec fn resolution_ok(
    requested_account: Option<Seq<char>>,
    requested_key: Option<Seq<char>>,
    config: Option<&Config>,
    env: TokenEnv,
    r: Resolution,
) -> bool {
    match given_view(requested_key) {
        Some(k) => resolved_as(r, "api-key"@, k),
        None => match config {
            None => r is NeedConfig,
            Some(c) => match given_view(requested_account) {
                Some(a) => {
                    let es = account_entries(c.accounts);
                    if crate::config::no_match(es, a) {
                        r matches Resolution::Failed(e) && e.code == ErrorCode::NoAccount && e.message@
                            == "No account named '"@ + a + "'."@ && (e.detail matches Some(d)
                            && describes(*c, d@)) && opt_text(e.remediation) == Some(
                            "twitter accounts list"@,
                        )
                    } else {
                        r matches Resolution::NeedKey { name, account } && exists|i: int|
                            #[trigger] crate::config::is_first_match(es, a, i) && name@ == es[i].0
                                && account@ == es[i].1
                    }
                },
                None => match env_token(env) {
                    Some(t) => resolved_as(r, "env"@, t),
                    None => r matches Resolution::Failed(e) && e.code == ErrorCode::NoAccount
                        && e.message@ == nothing_given_text() && (e.detail matches Some(d)
                        && describes(*c, d@)) && opt_text(e.remediation) == Some(
                        "twitter login <name>"@,
                    ),
                },
            },
        },
    }
}

/// `--api-key` wins: a key given on the command line (not blank) is used, trimmed, before any
/// configuration is loaded or any account looked up.
pub proof fn lemma_api_key_wins(
    requested_account: Option<Seq<char>>,
    requested_key: Option<Seq<char>>,
    config: Option<&Config>,
    env: TokenEnv,
    r: Resolution,
)
    requires
        resolution_ok(requested_account, requested_key, config, env, r),
        given_view(requested_key) is Some,
    ensures
        r matches Resolution::Resolved(a) && a.name@ == "api-key"@ && Some(a.api_key@) == given_view(
            requested_key,
        ),
{
}

/// An account asked for by name is that account or an error, never the environment's token:
/// once the configuration is loaded and no key was given, naming an account leads to reading
/// its stored key, or to `no_account`.
pub proof fn lemma_named_account_never_falls_back(
    requested_account: Option<Seq<char>>,
    requested_key: Option<Seq<char>>,
    config: Option<&Config>,
    env: TokenEnv,
    r: Resolution,
)
    requires
        resolution_ok(requested_account, requested_key, config, env, r),
        config is Some,
        given_view(requested_account) is Some,
        given_view(requested_key) is None,
    ensures
        r is NeedKey || (r matches Resolution::Failed(e) && e.code == ErrorCode::NoAccount),
{
}

/// The text of an optional argument, trimmed, when it is not blank.
pub fn given_text(o: Option<&str>) -> (r: Option<String>)
    ensures
        opt_text(r) == given(o),
{
    match o {
        Some(s) => {
            let t = trim(s);
            if t.as_str().is_empty() {
                assert(blank(s@));
                None
            } else {
                Some(t)
            }
        },
        None => None,
    }
}

fn resolved(name: &str, key: String) -> (r: Resolution)
    ensures
        resolved_as(r, name@, key@),
{
    Resolution::Resolved(
        Resolved { name: String::from_str(name), config: AccountConfig::empty(), api_key: key },
    )
}

/// Picks the account and key a command runs with: `--api-key` wins; then `--account`, looked
/// up case-insensitively; then `APIFY_TOKEN` (or `TWITTER_API_TOKEN`). `config` is `None` until
/// the caller has loaded it, which is asked for only when no key was given.
pub fn resolve(
    requested_account: Option<&str>,
    requested_key: Option<&str>,
    config: Option<&Config>,
    env: &TokenEnv,
) -> (r: Resolution)
    ensures
        resolution_ok(str_view(requested_account), str_view(requested_key), config, *env, r),
{
    if let Some(key) = given_text(requested_key) {
        return resolved("api-key", key);
    }
    let config = match config {
        Some(c) => c,
        None => return Resolution::NeedConfig,
    };
    if let Some(requested) = given_text(requested_account) {
        return match config.find(requested.as_str()) {
            Some((name, account)) => Resolution::NeedKey { name, account },
            None => {
                let mut message = cat("No account named '", requested.as_str());
                push_str(&mut message, "'.");
                Resolution::Failed(
                    Error::new(ErrorCode::NoAccount, message).detail(describe(config)).fix(
                        String::from_str("twitter accounts list"),
                    ),
                )
            },
        };
    }
    let set = match &env.apify_token {
        Some(t) => Some(t.as_str()),
        None => match &env.twitter_api_token {
            Some(t) => Some(t.as_str()),
            None => None,
        },
    };
    if let Some(token) = given_text(set) {
        return resolved("env", token);
    }
    Resolution::Failed(
        error_with(
            ErrorCode::NoAccount,
            "No account or API token specified. Pass --account <name>, --api-key <key>, or set APIFY_TOKEN.",
        ).detail(describe(config)).fix(String::from_str("twitter login <name>")),
    )
}

/// Finishes resolving account `name` with the key read from the store: a key that is missing
/// or blank means the account needs a new one.
pub fn resolve_stored(name: String, account: AccountConfig, stored: Option<String>) -> (r: Result<Resolved, Error>)
    ensures
        match stored {
            Some(k) if !blank(k@) => r matches Ok(a) && a.name@ == name@ && a.config@ == account@
                && a.api_key@ == k@,
            _ => r matches Err(e) && e.code == ErrorCode::AuthRequired && e.message@ == "Account '"@
                + name@ + "' has no stored API token."@ && opt_text(e.detail) == Some(
                "The config entry exists but the keystore has nothing under it."@,
            ) && opt_text(e.remediation) == Some(
                "twitter accounts add "@ + name@ + " --api-key <key>"@,
            ),
        },
{
    if let Some(k) = stored {
        if !is_blank(k.as_str()) {
            return Ok(Resolved { name, config: account, api_key: k });
        }
    }
    let mut message = cat("Account '", name.as_str());
    push_str(&mut message, "' has no stored API token.");
    let mut fix = cat("twitter accounts add ", name.as_str());
    push_str(&mut fix, " --api-key <key>");
    Err(
        Error::new(ErrorCode::AuthRequired, message).detail(
            String::from_str("The config entry exists but the keystore has nothing under it."),
        ).fix(fix),
    )
}

} // verus!
