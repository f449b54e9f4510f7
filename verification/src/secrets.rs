//! Where API keys live: the OS keystore, one entry per account under `account:{name}`.
//!
//! DPAPI on Windows, the Keychain on macOS, libsecret on Linux. When none is available the tool
//! refuses to start rather than silently writing a file - `TWITTER_ALLOW_PLAINTEXT_STORE=1` is
//! the explicit opt-out.
//!
//! The keystore commands and the store file are the caller's to run and to read and write: this
//! module says which command to run or which file to use, and what comes of the answer.

use vstd::prelude::*;
use vstd::string::*;

use crate::error::{error_with, opt_text, Error, ErrorCode};
use crate::text::{
    blank, cat, is_blank, lex_less, lex_lt, lemma_lex_irreflexive, lemma_lex_total,
    lemma_lex_transitive, lowercase, push_str, str_eq, strip_newlines, to_lowercase, trim, trim_newlines,
    trimmed, chars_of,
};

verus! {

/// The service name the keystore entries are filed under.
pub open spec fn service() -> Seq<char> {
    "twitter-cli"@
}

/// The keystore entry of account `name`: `account:` and the name in lowercase.
pub open spec fn spec_account_key(name: Seq<char>) -> Seq<char> {
    "account:"@ + lowercase(name)
}

/// The keystore entry of account `name`.
pub fn account_key(name: &str) -> (r: String)
    ensures
        r@ == spec_account_key(name@),
{
    let lowered = to_lowercase(name);
    cat("account:", lowered.as_str())
}

/// Names that lowercase alike share one keystore entry.
pub proof fn lemma_account_key_case(a: Seq<char>, b: Seq<char>)
    requires
        lowercase(a) == lowercase(b),
    ensures
        spec_account_key(a) == spec_account_key(b),
{
}

/// The credential backends.
#[derive(Clone, Copy, Debug, PartialEq, Eq, Structural)]
pub enum Store {
    Dpapi,
    Keychain,
    LibSecret,
    Plaintext,
}

/// The backend name reported by `twitter accounts list` and accepted by `TWITTER_SECRET_STORE`.
pub open spec fn spec_store_name(s: Store) -> Seq<char> {
    match s {
        Store::Dpapi => "dpapi"@,
        Store::Keychain => "keychain"@,
        Store::LibSecret => "libsecret"@,
        Store::Plaintext => "plaintext"@,
    }
}

/// Backends that keep the keys in a file of their own (a JSON object of entry to key).
pub open spec fn spec_uses_file(s: Store) -> bool {
    s == Store::Dpapi || s == Store::Plaintext
}

impl Store {
    /// Backend name, as reported by `twitter accounts list`.
    pub fn name(self) -> (r: &'static str)
        ensures
            r@ == spec_store_name(self),
    {
        match self {
            Store::Dpapi => "dpapi",
            Store::Keychain => "keychain",
            Store::LibSecret => "libsecret",
            Store::Plaintext => "plaintext",
        }
    }

    /// Whether the backend keeps the keys in a file of its own.
    pub fn uses_file(self) -> (r: bool)
        ensures
            r == spec_uses_file(self),
    {
        match self {
            Store::Dpapi | Store::Plaintext => true,
            _ => false,
        }
    }

    /// The name of the backend's file in the config directory.
    pub fn file_name(self) -> (r: &'static str)
        ensures
            r@ == if self == Store::Dpapi {
                "secrets.dpapi"@
            } else {
                "secrets.json"@
            },
    {
        match self {
            Store::Dpapi => "secrets.dpapi",
            _ => "secrets.json",
        }
    }
}

// ---------------------------------------------------------------------------------------------
// Choosing the backend
// ---------------------------------------------------------------------------------------------

/// What the machine and the environment say about the available backends.
#[derive(Debug)]
pub struct StoreEnv {
    /// `TWITTER_SECRET_STORE`, when set.
    pub forced: Option<String>,
    /// Running on Windows.
    pub windows: bool,
    /// Running on macOS.
    pub macos: bool,
    /// The macOS `security` command exists.
    pub security_found: bool,
    /// The libsecret `secret-tool` command exists.
    pub secret_tool_found: bool,
    /// `TWITTER_ALLOW_PLAINTEXT_STORE`, when set.
    pub allow_plaintext: Option<String>,
}

/// `TWITTER_ALLOW_PLAINTEXT_STORE` opts in to the plaintext file only when it is exactly `1`.
pub open spec fn plaintext_allowed(v: Option<String>) -> bool {
    opt_text(v) == Some("1"@)
}

/// Whether the value of `TWITTER_ALLOW_PLAINTEXT_STORE` opts in to the plaintext file: only
/// exactly `1` does (not `true`, not ` 1`).
pub fn allows_plaintext(v: &Option<String>) -> (r: bool)
    ensures
        r == plaintext_allowed(*v),
{
    match v {
        Some(s) => str_eq(s.as_str(), "1"),
        None => false,
    }
}

/// Why no keystore was found on macOS.
pub open spec fn no_security_reason() -> Seq<char> {
    "The macOS 'security' command was not found."@
}

/// Why no keystore was found elsewhere.
pub open spec fn no_libsecret_reason() -> Seq<char> {
    "libsecret is not installed, so there is no OS keystore to hold your API keys. Install it with: sudo apt install libsecret-tools  (or the equivalent for your distro)."@
}

/// The forced backend name is one this platform has: what it selects.
pub open spec fn forced_store(name: Seq<char>, windows: bool) -> Option<Store> {
    if name == "dpapi"@ && windows {
        Some(Store::Dpapi)
    } else if name == "keychain"@ {
        Some(Store::Keychain)
    } else if name == "libsecret"@ {
        Some(Store::LibSecret)
    } else if name == "plaintext"@ {
        Some(Store::Plaintext)
    } else {
        None
    }
}

/// The backend the environment selects, or `None` where none is available.
pub open spec fn chosen_store(env: StoreEnv) -> Option<Store> {
    match env.forced {
        Some(f) if !blank(f@) => forced_store(lowercase(f@), env.windows),
        _ => if env.windows {
            Some(Store::Dpapi)
        } else if env.macos && env.security_found {
            Some(Store::Keychain)
        } else if !env.macos && env.secret_tool_found {
            Some(Store::LibSecret)
        } else if plaintext_allowed(env.allow_plaintext) {
            Some(Store::Plaintext)
        } else {
            None
        },
    }
}

/// The error for a `TWITTER_SECRET_STORE` value that names no backend of this platform.
pub open spec fn unknown_store_error(e: Error, forced: Seq<char>) -> bool {
    &&& e.code == ErrorCode::InvalidInput
    &&& e.message@ == "TWITTER_SECRET_STORE='"@ + forced
        + "' is not a backend available on this platform."@
    &&& e.detail is None
    &&& opt_text(e.remediation)
        == Some("Unset TWITTER_SECRET_STORE, or set it to one of: dpapi, keychain, libsecret, plaintext."@)
}

/// The error when no keystore is available and plaintext was not allowed.
pub open spec fn no_store_error(e: Error, reason: Seq<char>) -> bool {
    &&& e.code == ErrorCode::Error
    &&& e.message@ == "No secure credential store is available on this machine."@
    &&& opt_text(e.detail) == Some(reason)
    &&& opt_text(e.remediation)
        == Some("Install a keystore, or set TWITTER_ALLOW_PLAINTEXT_STORE=1 to store API keys in a 0600 file instead."@)
}

/// `r` is the outcome of choosing a backend in `env`.
pub open spec fn store_chosen(env: StoreEnv, r: Result<Store, Error>) -> bool {
    match chosen_store(env) {
        Some(s) => r == Ok::<Store, Error>(s),
        None => match r {
            Ok(_) => false,
            Err(e) => match env.forced {
                Some(f) if !blank(f@) => unknown_store_error(e, f@),
                _ => no_store_error(e, if env.macos {
                    no_security_reason()
                } else {
                    no_libsecret_reason()
                }),
            },
        },
    }
}

/// The plaintext file where `allow_plaintext` (the value of `TWITTER_ALLOW_PLAINTEXT_STORE`) is
/// exactly `1`, else the error saying why no keystore is available (`reason`).
pub fn fallback(reason: &str, allow_plaintext: &Option<String>) -> (r: Result<Store, Error>)
    ensures
        plaintext_allowed(*allow_plaintext) ==> r == Ok::<Store, Error>(Store::Plaintext),
        !plaintext_allowed(*allow_plaintext) ==> (r matches Err(e) && no_store_error(e, reason@)),
{
    if allows_plaintext(allow_plaintext) {
        return Ok(Store::Plaintext);
    }
    Err(
        error_with(ErrorCode::Error, "No secure credential store is available on this machine.").detail(
            String::from_str(reason),
        ).fix(
            String::from_str(
                "Install a keystore, or set TWITTER_ALLOW_PLAINTEXT_STORE=1 to store API keys in a 0600 file instead.",
            ),
        ),
    )
}

/// The backend for this machine: the one `TWITTER_SECRET_STORE` names, else the platform's
/// keystore, else the plaintext file if it was explicitly allowed, else an error.
pub fn store(env: &StoreEnv) -> (r: Result<Store, Error>)
    ensures
        store_chosen(*env, r),
{
    if let Some(f) = &env.forced {
        if !is_blank(f.as_str()) {
            let name = to_lowercase(f.as_str());
            let n = name.as_str();
            if str_eq(n, "dpapi") && env.windows {
                return Ok(Store::Dpapi);
            } else if str_eq(n, "keychain") {
                return Ok(Store::Keychain);
            } else if str_eq(n, "libsecret") {
                return Ok(Store::LibSecret);
            } else if str_eq(n, "plaintext") {
                return Ok(Store::Plaintext);
            }
            let mut message = cat("TWITTER_SECRET_STORE='", f.as_str());
            push_str(&mut message, "' is not a backend available on this platform.");
            return Err(
                Error::invalid(message).fix(
                    String::from_str(
                        "Unset TWITTER_SECRET_STORE, or set it to one of: dpapi, keychain, libsecret, plaintext.",
                    ),
                ),
            );
        }
    }
    if env.windows {
        return Ok(Store::Dpapi);
    }
    if env.macos {
        if env.security_found {
            return Ok(Store::Keychain);
        }
        return fallback("The macOS 'security' command was not found.", &env.allow_plaintext);
    }
    if env.secret_tool_found {
        return Ok(Store::LibSecret);
    }
    fallback(
        "libsecret is not installed, so there is no OS keystore to hold your API keys. Install it with: sudo apt install libsecret-tools  (or the equivalent for your distro).",
        &env.allow_plaintext,
    )
}

/// An optional text kept only when it is not empty.
pub open spec fn non_empty(t: Option<String>) -> Option<Seq<char>> {
    match t {
        Some(s) => if s@.len() == 0 {
            None
        } else {
            Some(s@)
        },
        None => None,
    }
}

fn keep_non_empty(t: &Option<String>) -> (r: Option<String>)
    ensures
        opt_text(r) == non_empty(*t),
{
    match t {
        Some(s) => if s.as_str().is_empty() {
            None
        } else {
            Some(s.clone())
        },
        None => None,
    }
}

/// The backend choice is made once per process and its failure remembered as text; this is the
/// error each later call (the first included) gets back: unclassified, with the message, and
/// the detail and remediation where they are not empty.
pub fn replayed(e: &Error) -> (r: Error)
    ensures
        r.code == ErrorCode::Error,
        r.message@ == e.message@,
        opt_text(r.detail) == non_empty(e.detail),
        opt_text(r.remediation) == non_empty(e.remediation),
{
    Error { code: ErrorCode::Error, message: e.message.clone(), detail: keep_non_empty(&e.detail), remediation: keep_non_empty(&e.remediation) }
}

/// Keys never silently land in a plaintext file: the plaintext backend is chosen only when it
/// is asked for by name or explicitly allowed.
pub proof fn lemma_plaintext_only_when_asked(env: StoreEnv)
    requires
        chosen_store(env) == Some(Store::Plaintext),
    ensures
        plaintext_allowed(env.allow_plaintext) || (env.forced matches Some(f) && lowercase(f@)
            == "plaintext"@),
{
}

/// Naming a backend by the name it reports selects it again (DPAPI on Windows only).
pub proof fn lemma_name_selects_store(env: StoreEnv, s: Store)
    requires
        env.forced matches Some(f) && lowercase(f@) == spec_store_name(s) && !blank(f@),
        s != Store::Dpapi || env.windows,
    ensures
        chosen_store(env) == Some(s),
{
    reveal_strlit("dpapi");
    reveal_strlit("keychain");
    reveal_strlit("libsecret");
    reveal_strlit("plaintext");
    let f = env.forced->0;
    assert("keychain"@ != "dpapi"@) by {
        assert("keychain"@.len() != "dpapi"@.len());
    }
    assert("libsecret"@ != "dpapi"@) by {
        assert("libsecret"@.len() != "dpapi"@.len());
    }
    assert("libsecret"@ != "keychain"@) by {
        assert("libsecret"@[0] != "keychain"@[0]);
    }
    assert("plaintext"@ != "dpapi"@) by {
        assert("plaintext"@.len() != "dpapi"@.len());
    }
    assert("plaintext"@ != "keychain"@) by {
        assert("plaintext"@[0] != "keychain"@[0]);
    }
    assert("plaintext"@ != "libsecret"@) by {
        assert("plaintext"@[0] != "libsecret"@[0]);
    }
    assert(forced_store(lowercase(f@), env.windows) == Some(s));
}

// ---------------------------------------------------------------------------------------------
// The store file: a JSON object from keystore entry to API key
// ---------------------------------------------------------------------------------------------

/// The store file's entries as text, in key order.
///
/// The entries are held as a `Vec` of pairs kept in ascending key order, not as a `BTreeMap`:
/// vstd's `BTreeMap` specifications hold only for key types known to obey `Ord`'s
/// specification (`key_obeys_cmp_spec`), which vstd does not give for `String`, so nothing
/// could be proved of such a map here.
pub open spec fn pairs_view(v: Seq<(String, String)>) -> Seq<(Seq<char>, Seq<char>)> {
    v.map_values(|e: (String, String)| (e.0@, e.1@))
}

/// Keys strictly ascending, hence each present once.
pub open spec fn keys_ascending(es: Seq<(Seq<char>, Seq<char>)>) -> bool {
    forall|i: int, j: int| 0 <= i < j < es.len() ==> lex_lt(es[i].0, es[j].0)
}

/// The key stored under entry `k`.
pub open spec fn lookup(es: Seq<(Seq<char>, Seq<char>)>, k: Seq<char>) -> Option<Seq<char>>
    decreases es.len(),
{
    if es.len() == 0 {
        None
    } else if es[0].0 == k {
        Some(es[0].1)
    } else {
        lookup(es.drop_first(), k)
    }
}

/// The entries with `k` set to `v`, kept in key order.
pub open spec fn with_entry(es: Seq<(Seq<char>, Seq<char>)>, k: Seq<char>, v: Seq<char>) -> Seq<(Seq<char>, Seq<char>)>
    decreases es.len(),
{
    if es.len() == 0 {
        seq![(k, v)]
    } else if es[0].0 == k {
        seq![(k, v)] + es.drop_first()
    } else if lex_lt(k, es[0].0) {
        seq![(k, v)] + es
    } else {
        seq![es[0]] + with_entry(es.drop_first(), k, v)
    }
}

/// The entries without `k`.
pub open spec fn without_entry(es: Seq<(Seq<char>, Seq<char>)>, k: Seq<char>) -> Seq<(Seq<char>, Seq<char>)>
    decreases es.len(),
{
    if es.len() == 0 {
        es
    } else if es[0].0 == k {
        es.drop_first()
    } else {
        seq![es[0]] + without_entry(es.drop_first(), k)
    }
}

/// What `serde_json::from_slice::<BTreeMap<String, String>>` makes of the bytes: the entries
/// in key order, or the text of the parse error.
pub uninterp spec fn secrets_decoded(bytes: Seq<u8>) -> Result<Seq<(Seq<char>, Seq<char>)>, Seq<char>>;

/// The bytes read back as exactly the entries `es`.
pub open spec fn decodes_to(bytes: Seq<u8>, es: Seq<(Seq<char>, Seq<char>)>) -> bool {
    secrets_decoded(bytes) == Ok::<Seq<(Seq<char>, Seq<char>)>, Seq<char>>(es)
}

/// What `serde_json::to_vec_pretty` writes for the map of the entries.
pub uninterp spec fn secrets_pretty_json(es: Seq<(Seq<char>, Seq<char>)>) -> Seq<u8>;

/// What `serde_json::to_vec` writes for the map of the entries.
pub uninterp spec fn secrets_compact_json(es: Seq<(Seq<char>, Seq<char>)>) -> Seq<u8>;

/// `serde_json::from_slice` into a `BTreeMap<String, String>` from serde_json, handed out in
/// the map's order (ascending keys), or the parse error's text.
#[verifier::external_body]
fn decode_secrets(bytes: &[u8]) -> (r: Result<Vec<(String, String)>, String>)
    ensures
        match r {
            Ok(v) => decodes_to(bytes@, pairs_view(v@)) && keys_ascending(pairs_view(v@)),
            Err(m) => secrets_decoded(bytes@) == Err::<Seq<(Seq<char>, Seq<char>)>, Seq<char>>(m@),
        },
{
    match serde_json::from_slice::<std::collections::BTreeMap<String, String>>(bytes) {
        Ok(m) => Ok(m.into_iter().collect()),
        Err(e) => Err(e.to_string()),
    }
}

/// `serde_json::to_vec_pretty` from serde_json on the map of the entries. What it writes reads
/// back, through `from_slice`, as the same entries.
#[verifier::external_body]
fn encode_secrets_pretty(entries: &Vec<(String, String)>) -> (r: Vec<u8>)
    ensures
        r@ == secrets_pretty_json(pairs_view(entries@)),
        keys_ascending(pairs_view(entries@)) ==> decodes_to(r@, pairs_view(entries@)),
{
    let m: std::collections::BTreeMap<&String, &String> = entries.iter().map(|(k, v)| (k, v)).collect();
    serde_json::to_vec_pretty(&m).unwrap_or_default()
}

/// `serde_json::to_vec` from serde_json on the map of the entries. What it writes reads back,
/// through `from_slice`, as the same entries.
#[verifier::external_body]
fn encode_secrets_compact(entries: &Vec<(String, String)>) -> (r: Vec<u8>)
    ensures
        r@ == secrets_compact_json(pairs_view(entries@)),
        keys_ascending(pairs_view(entries@)) ==> decodes_to(r@, pairs_view(entries@)),
{
    let m: std::collections::BTreeMap<&String, &String> = entries.iter().map(|(k, v)| (k, v)).collect();
    serde_json::to_vec(&m).unwrap_or_default()
}

proof fn lemma_ascending_tail(es: Seq<(Seq<char>, Seq<char>)>)
    requires
        keys_ascending(es),
        es.len() > 0,
    ensures
        keys_ascending(es.drop_first()),
        forall|j: int| 0 <= j < es.drop_first().len() ==> lex_lt(es[0].0, #[trigger] es.drop_first()[j].0),
{
    assert forall|i: int, j: int| 0 <= i < j < es.drop_first().len() implies lex_lt(
        es.drop_first()[i].0,
        es.drop_first()[j].0,
    ) by {
        assert(es.drop_first()[i] == es[i + 1] && es.drop_first()[j] == es[j + 1]);
    }
    assert forall|j: int| 0 <= j < es.drop_first().len() implies lex_lt(es[0].0, #[trigger] es.drop_first()[j].0) by {
        assert(es.drop_first()[j] == es[j + 1]);
    }
}

proof fn lemma_lookup_absent(es: Seq<(Seq<char>, Seq<char>)>, k: Seq<char>)
    requires
        forall|j: int| 0 <= j < es.len() ==> (#[trigger] es[j]).0 != k,
    ensures
        lookup(es, k) is None,
    decreases es.len(),
{
    if es.len() > 0 {
        assert forall|j: int| 0 <= j < es.drop_first().len() implies (#[trigger] es.drop_first()[j]).0 != k by {
            assert(es.drop_first()[j] == es[j + 1]);
        }
        lemma_lookup_absent(es.drop_first(), k);
    }
}

/// Setting an entry keeps the keys ascending, and the set key reads back; every other key
/// reads as before.
#[verifier::spinoff_prover]
pub proof fn lemma_with_entry(es: Seq<(Seq<char>, Seq<char>)>, k: Seq<char>, v: Seq<char>, other: Seq<char>)
    requires
        keys_ascending(es),
    ensures
        keys_ascending(with_entry(es, k, v)),
        lookup(with_entry(es, k, v), k) == Some(v),
        other != k ==> lookup(with_entry(es, k, v), other) == lookup(es, other),
        forall|j: int| 0 <= j < with_entry(es, k, v).len() ==> (#[trigger] with_entry(es, k, v)[j]).0 == k || exists|i: int| 0 <= i < es.len() && es[i].0 == with_entry(es, k, v)[j].0,
    decreases es.len(),
{
    let w = with_entry(es, k, v);
    if es.len() == 0 {
    } else {
        lemma_ascending_tail(es);
        let rest = es.drop_first();
        if es[0].0 == k {
            assert(w == seq![(k, v)] + rest);
            assert(w.drop_first() == rest);
            assert forall|i: int, j: int| 0 <= i < j < w.len() implies lex_lt(w[i].0, w[j].0) by {
                if i == 0 {
                    assert(w[j] == rest[j - 1]);
                } else {
                    assert(w[i] == rest[i - 1] && w[j] == rest[j - 1]);
                }
            }
            assert forall|j: int| 0 <= j < w.len() implies (#[trigger] w[j]).0 == k || exists|i: int| 0 <= i < es.len() && es[i].0 == w[j].0 by {
                if j > 0 {
                    assert(w[j] == es[j]);
                }
            }
            if other != k {
                assert(lookup(w, other) == lookup(rest, other));
            }
        } else if lex_lt(k, es[0].0) {
            assert(w == seq![(k, v)] + es);
            assert(w.drop_first() == es);
            assert forall|i: int, j: int| 0 <= i < j < w.len() implies lex_lt(w[i].0, w[j].0) by {
                if i == 0 {
                    assert(w[j] == es[j - 1]);
                    if j > 1 {
                        lemma_lex_transitive(k, es[0].0, es[j - 1].0);
                    }
                } else {
                    assert(w[i] == es[i - 1] && w[j] == es[j - 1]);
                }
            }
            assert forall|j: int| 0 <= j < w.len() implies (#[trigger] w[j]).0 == k || exists|i: int| 0 <= i < es.len() && es[i].0 == w[j].0 by {
                if j > 0 {
                    assert(w[j] == es[j - 1]);
                }
            }
            if other != k {
                assert(lookup(w, other) == lookup(es, other));
            }
        } else {
            lemma_with_entry(rest, k, v, other);
            let wr = with_entry(rest, k, v);
            assert(w == seq![es[0]] + wr);
            assert(w.drop_first() == wr);
            lemma_lex_total(k, es[0].0);
            assert forall|j: int| 0 <= j < wr.len() implies lex_lt(es[0].0, #[trigger] wr[j].0) by {
                if wr[j].0 == k {
                } else {
                    let i = choose|i: int| 0 <= i < rest.len() && rest[i].0 == wr[j].0;
                    assert(lex_lt(es[0].0, rest[i].0));
                }
            }
            assert forall|i: int, j: int| 0 <= i < j < w.len() implies lex_lt(w[i].0, w[j].0) by {
                if i == 0 {
                    assert(w[j] == wr[j - 1]);
                } else {
                    assert(w[i] == wr[i - 1] && w[j] == wr[j - 1]);
                }
            }
            assert forall|j: int| 0 <= j < w.len() implies (#[trigger] w[j]).0 == k || exists|i: int| 0 <= i < es.len() && es[i].0 == w[j].0 by {
                if j > 0 {
                    assert(w[j] == wr[j - 1]);
                    if wr[j - 1].0 != k {
                        let i = choose|i: int| 0 <= i < rest.len() && rest[i].0 == wr[j - 1].0;
                        assert(es[i + 1] == rest[i]);
                    }
                }
            }
            if other != k && es[0].0 != other {
                assert(lookup(w, other) == lookup(wr, other));
            }
        }
    }
}

/// Removing an entry keeps the keys ascending; the removed key no longer reads, every other
/// key reads as before.
pub proof fn lemma_without_entry(es: Seq<(Seq<char>, Seq<char>)>, k: Seq<char>, other: Seq<char>)
    requires
        keys_ascending(es),
    ensures
        keys_ascending(without_entry(es, k)),
        lookup(without_entry(es, k), k) is None,
        other != k ==> lookup(without_entry(es, k), other) == lookup(es, other),
        forall|j: int| 0 <= j < without_entry(es, k).len() ==> exists|i: int| 0 <= i < es.len() && es[i].0 == (#[trigger] without_entry(es, k)[j]).0,
    decreases es.len(),
{
    let w = without_entry(es, k);
    if es.len() > 0 {
        lemma_ascending_tail(es);
        let rest = es.drop_first();
        if es[0].0 == k {
            assert(w == rest);
            assert forall|j: int| 0 <= j < rest.len() implies (#[trigger] rest[j]).0 != k by {
                lemma_lex_irreflexive(k);
            }
            lemma_lookup_absent(rest, k);
            assert forall|j: int| 0 <= j < w.len() implies exists|i: int| 0 <= i < es.len() && es[i].0 == (#[trigger] w[j]).0 by {
                assert(es[j + 1] == w[j]);
            }
        } else {
            lemma_without_entry(rest, k, other);
            let wr = without_entry(rest, k);
            assert(w == seq![es[0]] + wr);
            assert(w.drop_first() == wr);
            assert forall|j: int| 0 <= j < wr.len() implies lex_lt(es[0].0, #[trigger] wr[j].0) by {
                let i = choose|i: int| 0 <= i < rest.len() && rest[i].0 == wr[j].0;
                assert(lex_lt(es[0].0, rest[i].0));
            }
            assert forall|i: int, j: int| 0 <= i < j < w.len() implies lex_lt(w[i].0, w[j].0) by {
                if i == 0 {
                    assert(w[j] == wr[j - 1]);
                } else {
                    assert(w[i] == wr[i - 1] && w[j] == wr[j - 1]);
                }
            }
            assert forall|j: int| 0 <= j < w.len() implies exists|i: int| 0 <= i < es.len() && es[i].0 == (#[trigger] w[j]).0 by {
                if j > 0 {
                    assert(w[j] == wr[j - 1]);
                    let i = choose|i: int| 0 <= i < rest.len() && rest[i].0 == wr[j - 1].0;
                    assert(es[i + 1] == rest[i]);
                }
            }
        }
    }
}

// ---------------------------------------------------------------------------------------------
// Reading, writing and deleting keys
// ---------------------------------------------------------------------------------------------

/// A keystore command to run: the program, its arguments, and what to feed its standard input.
#[derive(Debug)]
pub struct Invocation {
    pub program: String,
    pub args: Vec<String>,
    pub stdin: Option<String>,
}

/// How a keystore command ended: whether it succeeded, and its output as text.
#[derive(Debug)]
pub struct Outcome {
    pub success: bool,
    pub stdout: String,
    pub stderr: String,
}

/// The store file of a file backend: its path (for messages) and its contents as JSON text
/// (decrypted, for DPAPI), `None` when there is no such file yet.
#[derive(Debug)]
pub struct StoreFile {
    pub path: String,
    pub contents: Option<Vec<u8>>,
}

/// What the caller learned for an operation: the outcome of the command it was told to run,
/// or, for a file backend, the store file as it stands.
#[derive(Debug)]
pub enum Reply {
    Ran(Outcome),
    Read(StoreFile),
}

/// The arguments as text.
pub open spec fn args_view(v: Seq<String>) -> Seq<Seq<char>> {
    v.map_values(|a: String| a@)
}

/// `inv` runs `program` with `args` and standard input `stdin`.
pub open spec fn runs(inv: Invocation, program: Seq<char>, args: Seq<Seq<char>>, stdin: Option<Seq<char>>) -> bool {
    &&& inv.program@ == program
    &&& args_view(inv.args@) == args
    &&& opt_text(inv.stdin) == stdin
}

/// The command that looks a key up.
pub open spec fn get_command_ok(s: Store, key: Seq<char>, r: Option<Invocation>) -> bool {
    match s {
        Store::Keychain => r matches Some(inv) && runs(inv, "security"@, seq!["find-generic-password"@, "-s"@, service(), "-a"@, key, "-w"@], None),
        Store::LibSecret => r matches Some(inv) && runs(inv, "secret-tool"@, seq!["lookup"@, "service"@, service(), "account"@, key], None),
        _ => r is None,
    }
}

/// The command that stores a key (`-U` updates an existing Keychain item in place).
pub open spec fn set_command_ok(s: Store, key: Seq<char>, value: Seq<char>, r: Option<Invocation>) -> bool {
    match s {
        Store::Keychain => r matches Some(inv) && runs(inv, "security"@, seq!["add-generic-password"@, "-U"@, "-s"@, service(), "-a"@, key, "-w"@, value], None),
        Store::LibSecret => r matches Some(inv) && runs(inv, "secret-tool"@, seq!["store"@, "--label="@ + service() + ": "@ + key, "service"@, service(), "account"@, key], Some(value)),
        _ => r is None,
    }
}

/// The command that deletes a key.
pub open spec fn delete_command_ok(s: Store, key: Seq<char>, r: Option<Invocation>) -> bool {
    match s {
        Store::Keychain => r matches Some(inv) && runs(inv, "security"@, seq!["delete-generic-password"@, "-s"@, service(), "-a"@, key], None),
        Store::LibSecret => r matches Some(inv) && runs(inv, "secret-tool"@, seq!["clear"@, "service"@, service(), "account"@, key], None),
        _ => r is None,
    }
}

/// The key a lookup command printed: its output without trailing line feeds, if it succeeded
/// and printed something.
pub open spec fn command_value(o: Outcome) -> Option<Seq<char>> {
    if o.success && strip_newlines(o.stdout@).len() > 0 {
        Some(strip_newlines(o.stdout@))
    } else {
        None
    }
}

/// The entries of the store file: none when there is no file, else what its contents decode to.
pub open spec fn file_entries(contents: Option<Seq<u8>>) -> Result<Seq<(Seq<char>, Seq<char>)>, Seq<char>> {
    match contents {
        Some(b) => secrets_decoded(b),
        None => Ok(Seq::empty()),
    }
}

/// The key stored under `key` in the store file, or the decoding error.
pub open spec fn file_lookup(contents: Option<Seq<u8>>, key: Seq<char>) -> Result<Option<Seq<char>>, Seq<char>> {
    match file_entries(contents) {
        Ok(es) => Ok(lookup(es, key)),
        Err(m) => Err(m),
    }
}

/// The contents of an optional store file.
pub open spec fn contents_view(f: StoreFile) -> Option<Seq<u8>> {
    match f.contents {
        Some(b) => Some(b@),
        None => None,
    }
}

/// The error for a store file that does not decode.
pub open spec fn invalid_file_error(e: Error, path: Seq<char>, cause: Seq<char>) -> bool {
    &&& e.code == ErrorCode::Error
    &&& e.message@ == path + " is not valid."@
    &&& opt_text(e.detail) == Some(cause)
    &&& e.remediation is None
}

/// How the file backend `s` writes its entries.
pub open spec fn encoded(s: Store, es: Seq<(Seq<char>, Seq<char>)>) -> Seq<u8> {
    if s == Store::Dpapi {
        secrets_compact_json(es)
    } else {
        secrets_pretty_json(es)
    }
}

/// `written` is the store file after setting `key` to `value` in `contents`.
pub open spec fn file_written(contents: Option<Seq<u8>>, key: Seq<char>, value: Seq<char>, written: Seq<u8>) -> bool {
    match file_entries(contents) {
        Ok(es) => keys_ascending(es) && decodes_to(written, with_entry(es, key, value)),
        Err(_) => false,
    }
}

/// `written` is the store file after removing `key` from `contents`.
pub open spec fn file_pruned(contents: Option<Seq<u8>>, key: Seq<char>, written: Seq<u8>) -> bool {
    match file_entries(contents) {
        Ok(es) => keys_ascending(es) && decodes_to(written, without_entry(es, key)),
        Err(_) => false,
    }
}

/// What `get` answers.
pub open spec fn get_ok(key: Seq<char>, reply: Reply, r: Result<Option<String>, Error>) -> bool {
    match reply {
        Reply::Ran(o) => r matches Ok(v) && opt_text(v) == command_value(o),
        Reply::Read(f) => match file_lookup(contents_view(f), key) {
            Ok(found) => r matches Ok(v) && opt_text(v) == found,
            Err(m) => r matches Err(e) && invalid_file_error(e, f.path@, m),
        },
    }
}

/// The error for a keystore command that failed to store a key.
pub open spec fn write_error(s: Store, e: Error, stderr: Seq<char>) -> bool {
    &&& e.code == ErrorCode::Error
    &&& opt_text(e.detail) == Some(trimmed(stderr))
    &&& if s == Store::Keychain {
        e.message@ == "Could not write to the macOS Keychain."@ && e.remediation is None
    } else {
        e.message@ == "Could not write to the system keyring."@ && opt_text(e.remediation)
            == Some("Check that a secret service (gnome-keyring, kwallet) is running and unlocked."@)
    }
}

/// What `set` answers: nothing more to do, the new store file to write, or an error.
pub open spec fn set_ok(s: Store, key: Seq<char>, value: Seq<char>, reply: Reply, r: Result<Option<Vec<u8>>, Error>) -> bool {
    match reply {
        Reply::Ran(o) => if o.success {
            r matches Ok(w) && w is None
        } else {
            r matches Err(e) && write_error(s, e, o.stderr@)
        },
        Reply::Read(f) => match file_entries(contents_view(f)) {
            Ok(es) => r matches Ok(w) && w matches Some(b) && b@ == encoded(s, with_entry(es, key, value))
                && file_written(contents_view(f), key, value, b@),
            Err(m) => r matches Err(e) && invalid_file_error(e, f.path@, m),
        },
    }
}

/// What `delete` answers: nothing more to do, the new store file to write, or an error.
pub open spec fn delete_ok(s: Store, key: Seq<char>, reply: Reply, r: Result<Option<Vec<u8>>, Error>) -> bool {
    match reply {
        Reply::Ran(_) => r matches Ok(w) && w is None,
        Reply::Read(f) => match file_entries(contents_view(f)) {
            Ok(es) => if lookup(es, key) is Some {
                r matches Ok(w) && w matches Some(b) && b@ == encoded(s, without_entry(es, key))
                    && file_pruned(contents_view(f), key, b@)
            } else {
                r matches Ok(w) && w is None
            },
            Err(m) => r matches Err(e) && invalid_file_error(e, f.path@, m),
        },
    }
}

fn arg(v: &mut Vec<String>, a: &str)
    ensures
        args_view(final(v)@) == args_view(old(v)@).push(a@),
{
    v.push(String::from_str(a));
    assert(args_view(v@) =~= args_view(old(v)@).push(a@));
}

/// The key stored under `key` among the entries of a store file.
pub fn lookup_entry(es: &Vec<(String, String)>, key: &str) -> (r: Option<String>)
    ensures
        opt_text(r) == lookup(pairs_view(es@), key@),
{
    let ghost v = pairs_view(es@);
    let mut i: usize = 0;
    assert(v.skip(0) == v);
    while i < es.len()
        invariant
            v == pairs_view(es@),
            i <= es@.len(),
            lookup(v, key@) == lookup(v.skip(i as int), key@),
        decreases es.len() - i,
    {
        assert(v.skip(i as int).drop_first() == v.skip(i + 1));
        assert(v.skip(i as int)[0] == (es@[i as int].0@, es@[i as int].1@));
        if str_eq(es[i].0.as_str(), key) {
            return Some(es[i].1.clone());
        }
        i = i + 1;
    }
    None
}

proof fn lemma_with_entry_at(es: Seq<(Seq<char>, Seq<char>)>, k: Seq<char>, v: Seq<char>, i: int)
    requires
        0 <= i <= es.len(),
        forall|j: int| 0 <= j < i ==> lex_lt(#[trigger] es[j].0, k),
        i == es.len() || !lex_lt(es[i].0, k),
    ensures
        i < es.len() && es[i].0 == k ==> with_entry(es, k, v) == es.take(i) + seq![(k, v)] + es.skip(i + 1),
        !(i < es.len() && es[i].0 == k) ==> with_entry(es, k, v) == es.take(i) + seq![(k, v)] + es.skip(i),
    decreases i,
{
    if i == 0 {
        if es.len() > 0 {
            lemma_lex_total(k, es[0].0);
            assert(es.take(0) + seq![(k, v)] + es.skip(1) == seq![(k, v)] + es.drop_first());
        }
        assert(es.take(0) + seq![(k, v)] + es.skip(0) == seq![(k, v)] + es);
    } else {
        lemma_lex_irreflexive(k);
        lemma_lex_total(k, es[0].0);
        let rest = es.drop_first();
        assert forall|j: int| 0 <= j < i - 1 implies lex_lt(#[trigger] rest[j].0, k) by {
            assert(rest[j] == es[j + 1]);
        }
        if i < es.len() {
            assert(rest[i - 1] == es[i]);
        }
        lemma_with_entry_at(rest, k, v, i - 1);
        assert(es.take(i) == seq![es[0]] + rest.take(i - 1));
        if i < es.len() {
            assert(rest.skip(i) == es.skip(i + 1));
        }
        assert(rest.skip(i - 1) == es.skip(i));
    }
}

fn key_before(name: &String, key: &Vec<char>) -> (r: bool)
    ensures
        r == lex_lt(name@, key@),
{
    let cs = chars_of(name.as_str());
    lex_less(cs.as_slice(), key.as_slice())
}

/// Sets `key` to `value` among the entries of a store file, which stay in ascending key order.
pub fn set_entry(es: &mut Vec<(String, String)>, key: &str, value: &str)
    ensures
        pairs_view(final(es)@) == with_entry(pairs_view(old(es)@), key@, value@),
{
    let ghost v0 = pairs_view(es@);
    let keys = chars_of(key);
    let mut i: usize = 0;
    while i < es.len() && key_before(&es[i].0, &keys)
        invariant
            v0 == pairs_view(es@),
            v0 == pairs_view(old(es)@),
            keys@ == key@,
            i <= es@.len(),
            forall|j: int| 0 <= j < i ==> lex_lt(#[trigger] v0[j].0, key@),
        decreases es.len() - i,
    {
        assert(v0[i as int].0 == es@[i as int].0@);
        i = i + 1;
    }
    if i < es.len() {
        assert(v0[i as int].0 == es@[i as int].0@);
    }
    proof {
        lemma_with_entry_at(v0, key@, value@, i as int);
    }
    if i < es.len() && str_eq(es[i].0.as_str(), key) {
        assert(v0[i as int].0 == es@[i as int].0@);
        es.remove(i);
        es.insert(i, (String::from_str(key), String::from_str(value)));
        assert(pairs_view(es@) =~= v0.take(i as int) + seq![(key@, value@)] + v0.skip(i + 1));
    } else {
        if i < es.len() {
            assert(v0[i as int].0 == es@[i as int].0@);
        }
        es.insert(i, (String::from_str(key), String::from_str(value)));
        assert(pairs_view(es@) =~= v0.take(i as int) + seq![(key@, value@)] + v0.skip(i as int));
    }
}

proof fn lemma_without_entry_at(es: Seq<(Seq<char>, Seq<char>)>, k: Seq<char>, i: int)
    requires
        0 <= i <= es.len(),
        forall|j: int| 0 <= j < i ==> (#[trigger] es[j]).0 != k,
    ensures
        i < es.len() && es[i].0 == k ==> without_entry(es, k) == es.take(i) + es.skip(i + 1),
        i == es.len() ==> without_entry(es, k) == es,
    decreases i,
{
    if i == 0 {
        if es.len() > 0 {
            assert(es.take(0) + es.skip(1) == es.drop_first());
        }
    } else {
        let rest = es.drop_first();
        assert forall|j: int| 0 <= j < i - 1 implies (#[trigger] rest[j]).0 != k by {
            assert(rest[j] == es[j + 1]);
        }
        if i < es.len() {
            assert(rest[i - 1] == es[i]);
        }
        lemma_without_entry_at(rest, k, i - 1);
        assert(es.take(i) == seq![es[0]] + rest.take(i - 1));
        if i < es.len() {
            assert(rest.skip(i) == es.skip(i + 1));
        }
        if i == es.len() {
            assert(seq![es[0]] + rest == es);
        }
    }
}

proof fn lemma_lookup_found(es: Seq<(Seq<char>, Seq<char>)>, k: Seq<char>, i: int)
    requires
        0 <= i < es.len(),
        es[i].0 == k,
        forall|j: int| 0 <= j < i ==> (#[trigger] es[j]).0 != k,
    ensures
        lookup(es, k) == Some(es[i].1),
    decreases i,
{
    if i > 0 {
        let rest = es.drop_first();
        assert forall|j: int| 0 <= j < i - 1 implies (#[trigger] rest[j]).0 != k by {
            assert(rest[j] == es[j + 1]);
        }
        lemma_lookup_found(rest, k, i - 1);
    }
}

/// Removes `key` from the entries of a store file; whether it was there.
pub fn remove_entry(es: &mut Vec<(String, String)>, key: &str) -> (r: bool)
    ensures
        pairs_view(final(es)@) == without_entry(pairs_view(old(es)@), key@),
        r == (lookup(pairs_view(old(es)@), key@) is Some),
{
    let ghost v0 = pairs_view(es@);
    let mut i: usize = 0;
    while i < es.len()
        invariant
            v0 == pairs_view(es@),
            v0 == pairs_view(old(es)@),
            i <= es@.len(),
            forall|j: int| 0 <= j < i ==> (#[trigger] v0[j]).0 != key@,
        decreases es.len() - i,
    {
        assert(v0[i as int].0 == es@[i as int].0@);
        if str_eq(es[i].0.as_str(), key) {
            proof {
                lemma_without_entry_at(v0, key@, i as int);
                lemma_lookup_found(v0, key@, i as int);
            }
            es.remove(i);
            assert(pairs_view(es@) =~= v0.take(i as int) + v0.skip(i + 1));
            return true;
        }
        i = i + 1;
    }
    proof {
        lemma_without_entry_at(v0, key@, i as int);
        lemma_lookup_absent(v0, key@);
    }
    false
}

fn read_entries(f: &StoreFile) -> (r: Result<Vec<(String, String)>, Error>)
    ensures
        match file_entries(contents_view(*f)) {
            Ok(es) => r matches Ok(v) && pairs_view(v@) == es && keys_ascending(es),
            Err(m) => r matches Err(e) && invalid_file_error(e, f.path@, m),
        },
{
    match &f.contents {
        None => {
            let v: Vec<(String, String)> = Vec::new();
            assert(pairs_view(v@) =~= Seq::<(Seq<char>, Seq<char>)>::empty());
            Ok(v)
        },
        Some(b) => match decode_secrets(b.as_slice()) {
            Ok(v) => Ok(v),
            Err(m) => Err(Error::other(cat(f.path.as_str(), " is not valid.")).detail(m)),
        },
    }
}

fn write_entries(s: Store, es: &Vec<(String, String)>) -> (r: Vec<u8>)
    ensures
        r@ == encoded(s, pairs_view(es@)),
        keys_ascending(pairs_view(es@)) ==> decodes_to(r@, pairs_view(es@)),
{
    if s == Store::Dpapi {
        encode_secrets_compact(es)
    } else {
        encode_secrets_pretty(es)
    }
}

impl Store {
    /// The command that looks `key` up, for a keystore backend; `None` for a file backend.
    pub fn get_invocation(self, key: &str) -> (r: Option<Invocation>)
        ensures
            get_command_ok(self, key@, r),
    {
        match self {
            Store::Keychain => {
                let mut args: Vec<String> = Vec::new();
                arg(&mut args, "find-generic-password");
                arg(&mut args, "-s");
                arg(&mut args, "twitter-cli");
                arg(&mut args, "-a");
                arg(&mut args, key);
                arg(&mut args, "-w");
                assert(args_view(args@) =~= seq!["find-generic-password"@, "-s"@, service(), "-a"@, key@, "-w"@]);
                Some(Invocation { program: String::from_str("security"), args, stdin: None })
            },
            Store::LibSecret => {
                let mut args: Vec<String> = Vec::new();
                arg(&mut args, "lookup");
                arg(&mut args, "service");
                arg(&mut args, "twitter-cli");
                arg(&mut args, "account");
                arg(&mut args, key);
                assert(args_view(args@) =~= seq!["lookup"@, "service"@, service(), "account"@, key@]);
                Some(Invocation { program: String::from_str("secret-tool"), args, stdin: None })
            },
            _ => None,
        }
    }

    /// The command that stores `value` under `key`, for a keystore backend.
    pub fn set_invocation(self, key: &str, value: &str) -> (r: Option<Invocation>)
        ensures
            set_command_ok(self, key@, value@, r),
    {
        match self {
            Store::Keychain => {
                let mut args: Vec<String> = Vec::new();
                arg(&mut args, "add-generic-password");
                arg(&mut args, "-U");
                arg(&mut args, "-s");
                arg(&mut args, "twitter-cli");
                arg(&mut args, "-a");
                arg(&mut args, key);
                arg(&mut args, "-w");
                arg(&mut args, value);
                assert(args_view(args@) =~= seq!["add-generic-password"@, "-U"@, "-s"@, service(), "-a"@, key@, "-w"@, value@]);
                Some(Invocation { program: String::from_str("security"), args, stdin: None })
            },
            Store::LibSecret => {
                let mut label = String::from_str("--label=twitter-cli: ");
                push_str(&mut label, key);
                proof {
                    reveal_strlit("--label=twitter-cli: ");
                    reveal_strlit("--label=");
                    reveal_strlit("twitter-cli");
                    reveal_strlit(": ");
                    assert("--label=twitter-cli: "@ =~= "--label="@ + "twitter-cli"@ + ": "@);
                }
                let mut args: Vec<String> = Vec::new();
                arg(&mut args, "store");
                arg(&mut args, label.as_str());
                arg(&mut args, "service");
                arg(&mut args, "twitter-cli");
                arg(&mut args, "account");
                arg(&mut args, key);
                assert(args_view(args@) =~= seq!["store"@, "--label="@ + service() + ": "@ + key@, "service"@, service(), "account"@, key@]);
                Some(
                    Invocation {
                        program: String::from_str("secret-tool"),
                        args,
                        stdin: Some(String::from_str(value)),
                    },
                )
            },
            _ => None,
        }
    }

    /// The command that deletes `key`, for a keystore backend.
    pub fn delete_invocation(self, key: &str) -> (r: Option<Invocation>)
        ensures
            delete_command_ok(self, key@, r),
    {
        match self {
            Store::Keychain => {
                let mut args: Vec<String> = Vec::new();
                arg(&mut args, "delete-generic-password");
                arg(&mut args, "-s");
                arg(&mut args, "twitter-cli");
                arg(&mut args, "-a");
                arg(&mut args, key);
                assert(args_view(args@) =~= seq!["delete-generic-password"@, "-s"@, service(), "-a"@, key@]);
                Some(Invocation { program: String::from_str("security"), args, stdin: None })
            },
            Store::LibSecret => {
                let mut args: Vec<String> = Vec::new();
                arg(&mut args, "clear");
                arg(&mut args, "service");
                arg(&mut args, "twitter-cli");
                arg(&mut args, "account");
                arg(&mut args, key);
                assert(args_view(args@) =~= seq!["clear"@, "service"@, service(), "account"@, key@]);
                Some(Invocation { program: String::from_str("secret-tool"), args, stdin: None })
            },
            _ => None,
        }
    }

    /// The key stored under `key`, from the lookup command's outcome or the store file.
    pub fn get(self, key: &str, reply: &Reply) -> (r: Result<Option<String>, Error>)
        requires
            spec_uses_file(self) <==> reply is Read,
        ensures
            get_ok(key@, *reply, r),
    {
        match reply {
            Reply::Ran(o) => {
                if !o.success {
                    return Ok(None);
                }
                let out = trim_newlines(o.stdout.as_str());
                if out.as_str().is_empty() {
                    Ok(None)
                } else {
                    Ok(Some(out))
                }
            },
            Reply::Read(f) => {
                let es = read_entries(f)?;
                Ok(lookup_entry(&es, key))
            },
        }
    }

    /// Stores `value` under `key`: checks the store command's outcome, or gives the store file
    /// to write.
    pub fn set(self, key: &str, value: &str, reply: &Reply) -> (r: Result<Option<Vec<u8>>, Error>)
        requires
            spec_uses_file(self) <==> reply is Read,
        ensures
            set_ok(self, key@, value@, *reply, r),
    {
        match reply {
            Reply::Ran(o) => {
                if o.success {
                    return Ok(None);
                }
                let cause = trim(o.stderr.as_str());
                if self == Store::Keychain {
                    Err(error_with(ErrorCode::Error, "Could not write to the macOS Keychain.").detail(cause))
                } else {
                    Err(
                        error_with(ErrorCode::Error, "Could not write to the system keyring.").detail(
                            cause,
                        ).fix(
                            String::from_str(
                                "Check that a secret service (gnome-keyring, kwallet) is running and unlocked.",
                            ),
                        ),
                    )
                }
            },
            Reply::Read(f) => {
                let mut es = read_entries(f)?;
                let ghost before = pairs_view(es@);
                set_entry(&mut es, key, value);
                proof {
                    lemma_with_entry(before, key@, value@, key@);
                }
                Ok(Some(write_entries(self, &es)))
            },
        }
    }

    /// Deletes `key`: nothing to check for a keystore command, or the store file to write when
    /// the key was there.
    pub fn delete(self, key: &str, reply: &Reply) -> (r: Result<Option<Vec<u8>>, Error>)
        requires
            spec_uses_file(self) <==> reply is Read,
        ensures
            delete_ok(self, key@, *reply, r),
    {
        match reply {
            Reply::Ran(_) => Ok(None),
            Reply::Read(f) => {
                let mut es = read_entries(f)?;
                let ghost before = pairs_view(es@);
                if remove_entry(&mut es, key) {
                    proof {
                        lemma_without_entry(before, key@, key@);
                    }
                    Ok(Some(write_entries(self, &es)))
                } else {
                    Ok(None)
                }
            },
        }
    }
}

/// A key written to a file backend reads back: after `set` gave `written` for `key` and
/// `value`, looking `key` up in `written` gives `value`, and every other key reads as it did.
pub proof fn lemma_get_after_set(
    contents: Option<Seq<u8>>,
    key: Seq<char>,
    value: Seq<char>,
    written: Seq<u8>,
    other: Seq<char>,
)
    requires
        file_written(contents, key, value, written),
    ensures
        file_lookup(Some(written), key) == Ok::<Option<Seq<char>>, Seq<char>>(Some(value)),
        other != key ==> file_lookup(Some(written), other) == file_lookup(contents, other),
{
    let es = file_entries(contents)->Ok_0;
    lemma_with_entry(es, key, value, other);
}

/// A deleted key is gone: after `delete` gave `written` for `key`, looking `key` up in
/// `written` finds nothing, and every other key reads as it did.
pub proof fn lemma_get_after_delete(contents: Option<Seq<u8>>, key: Seq<char>, written: Seq<u8>, other: Seq<char>)
    requires
        file_pruned(contents, key, written),
    ensures
        file_lookup(Some(written), key) == Ok::<Option<Seq<char>>, Seq<char>>(None),
        other != key ==> file_lookup(Some(written), other) == file_lookup(contents, other),
{
    let es = file_entries(contents)->Ok_0;
    lemma_without_entry(es, key, other);
}

/// DPAPI protection of the store file; only Windows has it.
pub fn protect(plain: &[u8]) -> (r: Result<Vec<u8>, Error>)
    ensures
        r matches Err(e) && e.code == ErrorCode::InvalidInput && e.message@ == "DPAPI is only available on Windows."@,
{
    Err(error_with(ErrorCode::InvalidInput, "DPAPI is only available on Windows."))
}

/// DPAPI unprotection of the store file at `path`; only Windows has it.
pub fn unprotect(data: &[u8], path: &str) -> (r: Result<Vec<u8>, Error>)
    ensures
        r matches Err(e) && e.code == ErrorCode::InvalidInput && e.message@ == "DPAPI is only available on Windows."@,
{
    Err(error_with(ErrorCode::InvalidInput, "DPAPI is only available on Windows."))
}

/// The error for a keystore command that could not be started.
pub fn start_failure(program: &str, cause: String) -> (e: Error)
    ensures
        e.code == ErrorCode::Error,
        e.message@ == "Could not start '"@ + program@ + "'."@,
        opt_text(e.detail) == Some(cause@),
        e.remediation is None,
{
    let mut m = cat("Could not start '", program);
    push_str(&mut m, "'.");
    Error::other(m).detail(cause)
}

/// The error for a keystore command that failed while running.
pub fn run_failure(program: &str, cause: String) -> (e: Error)
    ensures
        e.code == ErrorCode::Error,
        e.message@ == "'"@ + program@ + "' failed."@,
        opt_text(e.detail) == Some(cause@),
        e.remediation is None,
{
    let mut m = cat("'", program);
    push_str(&mut m, "' failed.");
    Error::other(m).detail(cause)
}

} // verus!
