use twitter_cli::account::{resolve, Resolution, TokenEnv};
use twitter_cli::client::seg;
use twitter_cli::commands::accounts::{drift, forget, record};
use twitter_cli::config::{AccountConfig, Config};
use twitter_cli::error::ErrorCode;
use twitter_cli::secrets::{account_key, store, Store, StoreEnv};

fn decode(s: &str) -> Vec<u8> {
    let b = s.as_bytes();
    let mut out = Vec::new();
    let mut i = 0;
    while i < b.len() {
        if b[i] == b'%' {
            out.push(u8::from_str_radix(&s[i + 1..i + 3], 16).unwrap());
            i += 3;
        } else {
            out.push(b[i]);
            i += 1;
        }
    }
    out
}

#[test]
fn seg_output_decodes_back_and_stays_in_its_segment() {
    for s in ["token_123", "A B/C", "a?b=c&d#e", "ünï/cødé", "../..", "%41"] {
        let e = seg(s);
        assert!(e.bytes().all(|b| b.is_ascii_alphanumeric() || b"-_.~%".contains(&b)));
        assert_eq!(decode(&e), s.as_bytes());
    }
}

#[test]
fn lookup_ignores_ascii_case_of_the_request() {
    let mut c = Config::new();
    c.insert("Work".to_string(), AccountConfig { identity: "a".to_string(), plan: String::new(), added_at: String::new() });
    for q in ["work", "WORK", "wOrK"] {
        assert_eq!(c.find(q).unwrap().0, "Work");
    }
    assert!(c.find("wörk").is_none());
}

#[test]
fn forgetting_a_new_account_restores_the_accounts() {
    let mut c = Config::new();
    c.insert("home".to_string(), AccountConfig { identity: "h".to_string(), plan: String::new(), added_at: String::new() });
    let before: Vec<(String, String)> = c.entries().into_iter().map(|(n, a)| (n, a.identity)).collect();
    record(&mut c, "work".to_string(), "w".to_string(), String::new(), "t".to_string());
    assert_eq!(c.entries().len(), 2);
    forget(&mut c, &"work".to_string());
    let after: Vec<(String, String)> = c.entries().into_iter().map(|(n, a)| (n, a.identity)).collect();
    assert_eq!(before, after);
}

#[test]
fn names_differing_in_case_share_a_keystore_entry() {
    assert_eq!(account_key("Work"), account_key("WORK"));
    assert_eq!(account_key("Work"), "account:work");
}

#[test]
fn a_store_is_selected_by_its_own_name() {
    for s in [Store::Keychain, Store::LibSecret, Store::Plaintext] {
        let env = StoreEnv {
            forced: Some(s.name().to_uppercase()),
            windows: false,
            macos: true,
            security_found: false,
            secret_tool_found: false,
            allow_plaintext: None,
        };
        assert_eq!(store(&env).unwrap(), s);
    }
}

#[test]
fn no_drift_against_itself() {
    for id in ["devuser", "a@b.c", ""] {
        assert_eq!(drift(id, id), None);
    }
}

#[test]
fn a_named_account_never_uses_the_environment_token() {
    let c = Config::new();
    let env = TokenEnv { apify_token: Some("token_from_env".to_string()), twitter_api_token: None };
    match resolve(Some("work"), None, Some(&c), &env) {
        Resolution::Failed(e) => assert_eq!(e.code, ErrorCode::NoAccount),
        other => panic!("{other:?}"),
    }
    match resolve(None, Some("k"), Some(&c), &env) {
        Resolution::Resolved(r) => assert_eq!(r.name, "api-key"),
        other => panic!("{other:?}"),
    }
}
