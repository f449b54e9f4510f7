//! What each command decides: the checks on its arguments, the records it writes and the
//! reports it prints. Prompting, reading files and calling the API are the caller's.

pub mod accounts;
pub mod adding;
pub mod login;
pub mod removing;
pub mod scrape;
pub mod search;

use vstd::prelude::*;

use crate::account::{resolution_ok, resolve as resolve_account, Resolution, TokenEnv};
use crate::cli::Account;
use crate::config::Config;
use crate::error::opt_text;

verus! {

/// Resolves the account a command runs with from its `--account` and `--api-key` options.
pub fn resolve(a: &Account, config: Option<&Config>, env: &TokenEnv) -> (r: Resolution)
    ensures
        resolution_ok(opt_text(a.account), opt_text(a.api_key), config, *env, r),
{
    let account = match &a.account {
        Some(s) => Some(s.as_str()),
        None => None,
    };
    let key = match &a.api_key {
        Some(s) => Some(s.as_str()),
        None => None,
    };
    resolve_account(account, key, config, env)
}

} // verus!
