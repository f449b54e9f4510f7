//! `twitter login`: what it tells the person at the terminal. The name, the key and the report
//! are decided as for `accounts add` (see `adding`, with `Via::Login`).

use vstd::prelude::*;

use crate::text::{cat, push_str};

verus! {

/// Where to copy or create an Apify API token.
pub const API_KEYS_URL: &'static str = "https://console.apify.com/account/integrations";

/// The note on standard error after a successful login: with the identity the key reports,
/// when there is one.
pub open spec fn spec_login_message(identity: Seq<char>, name: Seq<char>) -> Seq<char> {
    if identity.len() == 0 {
        "Successfully logged in to account '"@ + name + "'."@
    } else {
        "Successfully logged in as "@ + identity + " to account '"@ + name + "'."@
    }
}

/// The note printed after a successful login.
pub fn login_message(identity: &str, name: &str) -> (r: String)
    ensures
        r@ == spec_login_message(identity@, name@),
{
    if identity.is_empty() {
        let mut m = cat("Successfully logged in to account '", name);
        push_str(&mut m, "'.");
        m
    } else {
        let mut m = cat("Successfully logged in as ", identity);
        push_str(&mut m, " to account '");
        push_str(&mut m, name);
        push_str(&mut m, "'.");
        m
    }
}

} // verus!
