use twitter_cli::account::identity::{describe as describe_me, plan};
use twitter_cli::account::{describe, given_text, label, resolve, resolve_stored, Resolution, TokenEnv};
use twitter_cli::cli::Account;
use twitter_cli::commands::resolve as resolve_for;
use twitter_cli::config::{AccountConfig, Config};
use twitter_cli::error::ErrorCode;
use twitter_cli::json::Json;

fn s(t: &str) -> Json {
    Json::Str(t.to_string())
}

fn obj(members: Vec<(&str, Json)>) -> Json {
    Json::Object(members.into_iter().map(|(k, v)| (k.to_string(), v)).collect())
}

fn account(identity: &str) -> AccountConfig {
    AccountConfig { identity: identity.to_string(), plan: String::new(), added_at: String::new() }
}

fn no_env() -> TokenEnv {
    TokenEnv { apify_token: None, twitter_api_token: None }
}

#[test]
fn reads_apify_users_me_shape() {
    let me = obj(vec![(
        "data",
        obj(vec![
            ("id", s("wRsJZpLoEGmCfqkmm")),
            ("username", s("janedoe")),
            ("email", s("jane@example.com")),
            ("plan", s("personal")),
        ]),
    )]);
    assert_eq!(describe_me(&me), "janedoe");
    assert_eq!(plan(&me), "personal");
}

#[test]
fn degrades_to_empty() {
    assert_eq!(describe_me(&Json::Array(vec![Json::Number("1".to_string())])), "");
    assert_eq!(plan(&obj(vec![("x", Json::Number("1".to_string()))])), "");
}

#[test]
fn identity_prefers_top_level_and_skips_blank_names() {
    let me = obj(vec![("username", s("  ")), ("email", s("a@b.c")), ("data", obj(vec![("username", s("inner"))]))]);
    assert_eq!(describe_me(&me), "a@b.c");
    let me = obj(vec![("user", obj(vec![("login", s("octo"))]))]);
    assert_eq!(describe_me(&me), "octo");
    let me = obj(vec![("plan", obj(vec![("id", s("FREE"))]))]);
    assert_eq!(plan(&me), "FREE");
    let me = obj(vec![("tier", s("gold")), ("data", obj(vec![("plan", s("silver"))]))]);
    assert_eq!(plan(&me), "gold");
    assert_eq!(describe_me(&obj(vec![("id", Json::Number("7".to_string()))])), "");
}

#[test]
fn labels_and_description_of_accounts() {
    assert_eq!(label(&"work".to_string(), &account("me@x.com")), "work (me@x.com)");
    assert_eq!(label(&"home".to_string(), &account(" ")), "home");
    let mut c = Config::new();
    assert_eq!(
        describe(&c),
        "No accounts are configured yet. Run 'twitter login <name>' or 'twitter accounts add <name>'."
    );
    c.insert("work".to_string(), account("me@x.com"));
    c.insert("Alt".to_string(), account(""));
    assert_eq!(describe(&c), "Configured accounts: Alt, work (me@x.com)");
}

#[test]
fn api_key_wins_over_everything() {
    let env = TokenEnv { apify_token: Some("env_token".to_string()), twitter_api_token: None };
    match resolve(Some("work"), Some("  token_adhoc "), None, &env) {
        Resolution::Resolved(r) => {
            assert_eq!(r.name, "api-key");
            assert_eq!(r.api_key, "token_adhoc");
            assert_eq!(r.config.identity, "");
        }
        other => panic!("unexpected {other:?}"),
    }
}

#[test]
fn config_is_asked_for_when_no_key_is_given() {
    assert!(matches!(resolve(Some("work"), Some("   "), None, &no_env()), Resolution::NeedConfig));
    assert!(matches!(resolve(None, None, None, &no_env()), Resolution::NeedConfig));
}

#[test]
fn named_account_needs_its_stored_key() {
    let mut c = Config::new();
    c.insert("Work".to_string(), account("devuser"));
    match resolve(Some(" work "), None, Some(&c), &no_env()) {
        Resolution::NeedKey { name, account } => {
            assert_eq!(name, "Work");
            assert_eq!(account.identity, "devuser");
        }
        other => panic!("unexpected {other:?}"),
    }
    match resolve(Some("other"), None, Some(&c), &no_env()) {
        Resolution::Failed(e) => {
            assert_eq!(e.code, ErrorCode::NoAccount);
            assert_eq!(e.message, "No account named 'other'.");
            assert_eq!(e.detail.as_deref(), Some("Configured accounts: Work (devuser)"));
            assert_eq!(e.remediation.as_deref(), Some("twitter accounts list"));
        }
        other => panic!("unexpected {other:?}"),
    }
}

#[test]
fn environment_token_is_the_fallback() {
    let c = Config::new();
    let env = TokenEnv { apify_token: Some(" token_from_env ".to_string()), twitter_api_token: Some("other".to_string()) };
    match resolve(None, None, Some(&c), &env) {
        Resolution::Resolved(r) => {
            assert_eq!(r.name, "env");
            assert_eq!(r.api_key, "token_from_env");
        }
        other => panic!("unexpected {other:?}"),
    }
    let env = TokenEnv { apify_token: None, twitter_api_token: Some("second".to_string()) };
    match resolve(None, None, Some(&c), &env) {
        Resolution::Resolved(r) => assert_eq!(r.api_key, "second"),
        other => panic!("unexpected {other:?}"),
    }
    match resolve(None, None, Some(&c), &no_env()) {
        Resolution::Failed(e) => {
            assert_eq!(e.code, ErrorCode::NoAccount);
            assert_eq!(
                e.message,
                "No account or API token specified. Pass --account <name>, --api-key <key>, or set APIFY_TOKEN."
            );
            assert_eq!(e.remediation.as_deref(), Some("twitter login <name>"));
        }
        other => panic!("unexpected {other:?}"),
    }
}

#[test]
fn stored_key_finishes_resolving() {
    match resolve_stored("Work".to_string(), account("devuser"), Some("k1".to_string())) {
        Ok(r) => {
            assert_eq!(r.name, "Work");
            assert_eq!(r.api_key, "k1");
            assert_eq!(r.config.identity, "devuser");
            let c = r.client(None);
            assert_eq!(c.api_key, "k1");
        }
        Err(e) => panic!("unexpected {e:?}"),
    }
    for stored in [None, Some(" \n".to_string())] {
        let e = resolve_stored("Work".to_string(), account(""), stored).unwrap_err();
        assert_eq!(e.code, ErrorCode::AuthRequired);
        assert_eq!(e.message, "Account 'Work' has no stored API token.");
        assert_eq!(e.detail.as_deref(), Some("The config entry exists but the keystore has nothing under it."));
        assert_eq!(e.remediation.as_deref(), Some("twitter accounts add Work --api-key <key>"));
    }
}

#[test]
fn command_options_resolve_like_the_flags() {
    let a = Account { account: None, api_key: Some("token_adhoc".to_string()) };
    match resolve_for(&a, None, &no_env()) {
        Resolution::Resolved(r) => assert_eq!(r.name, "api-key"),
        other => panic!("unexpected {other:?}"),
    }
    assert_eq!(given_text(Some("  x ")), Some("x".to_string()));
    assert_eq!(given_text(Some("   ")), None);
    assert_eq!(given_text(None), None);
}
