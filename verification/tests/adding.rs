use twitter_cli::client::{read, Method};
use twitter_cli::commands::accounts::Via;
use twitter_cli::commands::adding::{accepts, add_step, AddAction, AddEvent, AddRequest, AddState};
use twitter_cli::config::{AccountConfig, Config};
use twitter_cli::error::ErrorCode;
use twitter_cli::json::Json;
use twitter_cli::secrets::Store;

const ME: &[u8] = br#"{"data":{"id":"user_123","username":"devuser","plan":"developer"}}"#;

fn request(via: Via, name: &str, api_key: Option<&str>, api_key_stdin: bool) -> AddRequest {
    AddRequest {
        via,
        name: name.to_string(),
        api_key: api_key.map(|s| s.to_string()),
        api_key_stdin,
        force: false,
        skip_verify: false,
        api_base: Some("http://127.0.0.1:9/v2".to_string()),
        config_dir: "/cfg".to_string(),
    }
}

fn step(req: &AddRequest, s: AddState, e: AddEvent) -> (AddState, AddAction) {
    assert!(accepts(&s, &e));
    add_step(req, s, e)
}

fn text_member(j: &Json, key: &str) -> String {
    match j {
        Json::Object(ms) => match &ms.iter().find(|(k, _)| k == key).unwrap().1 {
            Json::Str(s) => s.clone(),
            other => panic!("{other:?}"),
        },
        other => panic!("{other:?}"),
    }
}

#[test]
fn add_with_a_given_key_checks_it_then_saves() {
    let req = request(Via::AccountsAdd, " work ", Some(" apify_test_token "), false);
    let (s, a) = step(&req, AddState::Start, AddEvent::Begin);
    assert!(matches!(a, AddAction::Load));
    let (s, a) = step(&req, s, AddEvent::Loaded(Store::Plaintext, Config::new()));
    match &a {
        AddAction::Verify(q) => {
            assert_eq!(q.method, Method::Get);
            assert_eq!(q.url, "http://127.0.0.1:9/v2/users/me");
            assert_eq!(q.authorization, "Bearer apify_test_token");
        }
        other => panic!("{other:?}"),
    }
    let (s, a) = step(&req, s, AddEvent::MeAnswered(read(200, ME)));
    match &a {
        AddAction::Save { store, name, key, identity, plan } => {
            assert_eq!(*store, Store::Plaintext);
            assert_eq!(name, "work");
            assert_eq!(key, "apify_test_token");
            assert_eq!(identity, "devuser");
            assert_eq!(plan, "developer");
        }
        other => panic!("{other:?}"),
    }
    let (s, a) = step(&req, s, AddEvent::Saved);
    assert!(matches!(s, AddState::Done));
    match &a {
        AddAction::Finish { report, note } => {
            assert_eq!(text_member(report, "status"), "added");
            assert_eq!(text_member(report, "name"), "work");
            assert!(note.is_none());
        }
        other => panic!("{other:?}"),
    }
    assert!(!accepts(&s, &AddEvent::Saved));
}

#[test]
fn login_reads_the_key_from_stdin_after_the_name() {
    let req = request(Via::Login, "primary", None, true);
    let (s, a) = step(&req, AddState::Start, AddEvent::Begin);
    assert!(matches!(a, AddAction::Load));
    let (s, a) = step(&req, s, AddEvent::Loaded(Store::Keychain, Config::new()));
    assert!(matches!(a, AddAction::ReadStdin));
    let (s, a) = step(&req, s, AddEvent::StdinLine(Ok(" tok\n".to_string())));
    assert!(matches!(&a, AddAction::Verify(q) if q.authorization == "Bearer tok"));
    let (s, _) = step(&req, s, AddEvent::MeAnswered(read(200, ME)));
    let (_, a) = step(&req, s, AddEvent::Saved);
    match &a {
        AddAction::Finish { report, note } => {
            assert_eq!(text_member(report, "status"), "logged_in");
            assert_eq!(text_member(report, "secretStore"), "keychain");
            assert_eq!(note.as_deref(), Some("Successfully logged in as devuser to account 'primary'."));
        }
        other => panic!("{other:?}"),
    }
}

#[test]
fn accounts_add_reads_stdin_first() {
    let req = request(Via::AccountsAdd, "  ", None, true);
    let (s, a) = step(&req, AddState::Start, AddEvent::Begin);
    assert!(matches!(a, AddAction::ReadStdin));
    let (_, a) = step(&req, s, AddEvent::StdinLine(Ok("\n".to_string())));
    match a {
        AddAction::Fail(e) => assert_eq!(e.message, "--api-key-stdin was given but stdin was empty."),
        other => panic!("{other:?}"),
    }
    let (s, _) = step(&req, AddState::Start, AddEvent::Begin);
    let (_, a) = step(&req, s, AddEvent::StdinLine(Ok("key".to_string())));
    match a {
        AddAction::Fail(e) => assert_eq!(e.message, "An account name is required."),
        other => panic!("{other:?}"),
    }
    let (s, _) = step(&req, AddState::Start, AddEvent::Begin);
    let (_, a) = step(&req, s, AddEvent::StdinLine(Err("stream closed".to_string())));
    match a {
        AddAction::Fail(e) => {
            assert_eq!(e.code, ErrorCode::InvalidInput);
            assert_eq!(e.message, "Could not read stdin: stream closed");
        }
        other => panic!("{other:?}"),
    }
}

#[test]
fn prompting_until_a_key_is_typed() {
    let req = request(Via::AccountsAdd, "work", Some("   "), false);
    let (s, _) = step(&req, AddState::Start, AddEvent::Begin);
    let (s, a) = step(&req, s, AddEvent::Loaded(Store::Plaintext, Config::new()));
    assert!(matches!(&a, AddAction::Ask { prompt, retry: false } if prompt == "Apify API token for work: "));
    let (s, a) = step(&req, s, AddEvent::Answer("  ".to_string()));
    assert!(matches!(&a, AddAction::Ask { retry: true, .. }));
    let (_, a) = step(&req, s, AddEvent::Answer(" typed ".to_string()));
    assert!(matches!(&a, AddAction::Verify(q) if q.authorization == "Bearer typed"));

    let req = request(Via::Login, "ci", None, false);
    let (s, _) = step(&req, AddState::Start, AddEvent::Begin);
    let (s, a) = step(&req, s, AddEvent::Loaded(Store::Plaintext, Config::new()));
    assert!(matches!(&a, AddAction::Ask { prompt, .. } if prompt == "Paste your Apify API token for 'ci': "));
    let (_, a) = step(&req, s, AddEvent::NoTerminal);
    match a {
        AddAction::Fail(e) => {
            assert_eq!(e.message, "No API key given and no terminal to prompt on.");
            assert_eq!(e.remediation.as_deref(), Some("pbpaste | twitter login ci --api-key-stdin"));
        }
        other => panic!("{other:?}"),
    }
}

#[test]
fn skipping_verification_saves_nothing_observed() {
    let mut req = request(Via::AccountsAdd, "work", Some("k"), false);
    req.skip_verify = true;
    let (s, _) = step(&req, AddState::Start, AddEvent::Begin);
    let (s, a) = step(&req, s, AddEvent::Loaded(Store::Plaintext, Config::new()));
    assert!(matches!(&a, AddAction::Save { identity, plan, key, .. } if identity.is_empty() && plan.is_empty() && key == "k"));
    let (_, a) = step(&req, s, AddEvent::Saved);
    match &a {
        AddAction::Finish { report, .. } => match report {
            Json::Object(ms) => assert!(matches!(ms[4].1, Json::Bool(false))),
            other => panic!("{other:?}"),
        },
        other => panic!("{other:?}"),
    }
}

#[test]
fn taken_names_and_failed_checks_stop() {
    let mut config = Config::new();
    config.insert(
        "Work".to_string(),
        AccountConfig { identity: String::new(), plan: String::new(), added_at: String::new() },
    );
    let req = request(Via::AccountsAdd, "work", Some("k"), false);
    let (s, _) = step(&req, AddState::Start, AddEvent::Begin);
    let (s, a) = step(&req, s, AddEvent::Loaded(Store::Plaintext, config));
    assert!(matches!(s, AddState::Done));
    match a {
        AddAction::Fail(e) => assert_eq!(e.message, "An account named 'Work' already exists."),
        other => panic!("{other:?}"),
    }

    let mut config = Config::new();
    config.insert(
        "Work".to_string(),
        AccountConfig { identity: String::new(), plan: String::new(), added_at: String::new() },
    );
    let mut req = request(Via::AccountsAdd, "WORK", Some("k"), false);
    req.force = true;
    let (s, _) = step(&req, AddState::Start, AddEvent::Begin);
    let (s, _) = step(&req, s, AddEvent::Loaded(Store::Plaintext, config));
    let (s, a) = step(&req, s, AddEvent::MeAnswered(read(401, b"")));
    assert!(matches!(s, AddState::Done));
    match a {
        AddAction::Fail(e) => assert_eq!(e.code, ErrorCode::AuthRequired),
        other => panic!("{other:?}"),
    }

    let req = request(Via::Login, " ", Some("k"), false);
    let (_, a) = step(&req, AddState::Start, AddEvent::Begin);
    assert!(matches!(a, AddAction::Fail(e) if e.message == "An account name is required."));
}
