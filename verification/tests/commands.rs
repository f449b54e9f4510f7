use twitter_cli::cli::{Account, Scrape, Search};
use twitter_cli::commands::accounts::{
    add_target, added_report, cancelled, confirm_prompt, confirmation_unavailable, confirmed, drift,
    empty_answer_note, forget, key_prompt, list_report, no_terminal, prompt_failure, prompted_key, record,
    remove_target, removed_report, status_of, stdin_error, stdin_key, test_report, usable_key, Via,
};
use twitter_cli::commands::login::{login_message, API_KEYS_URL};
use twitter_cli::commands::scrape::scrape_payload;
use twitter_cli::commands::search::search_payload;
use twitter_cli::config::{AccountConfig, Config};
use twitter_cli::error::{Error, ErrorCode};
use twitter_cli::json::Json;
use twitter_cli::secrets::Store;

fn member<'a>(j: &'a Json, key: &str) -> Option<&'a Json> {
    match j {
        Json::Object(ms) => ms.iter().find(|(k, _)| k == key).map(|(_, v)| v),
        _ => None,
    }
}

fn keys(j: &Json) -> Vec<String> {
    match j {
        Json::Object(ms) => ms.iter().map(|(k, _)| k.clone()).collect(),
        _ => panic!("not an object: {j:?}"),
    }
}

fn text(j: &Json, key: &str) -> String {
    match member(j, key) {
        Some(Json::Str(s)) => s.clone(),
        other => panic!("{key}: {other:?}"),
    }
}

fn texts(j: &Json, key: &str) -> Vec<String> {
    match member(j, key) {
        Some(Json::Array(items)) => items
            .iter()
            .map(|i| match i {
                Json::Str(s) => s.clone(),
                other => panic!("{other:?}"),
            })
            .collect(),
        other => panic!("{key}: {other:?}"),
    }
}

fn flag(j: &Json, key: &str) -> bool {
    match member(j, key) {
        Some(Json::Bool(b)) => *b,
        other => panic!("{key}: {other:?}"),
    }
}

fn number(j: &Json, key: &str) -> String {
    match member(j, key) {
        Some(Json::Number(n)) => n.clone(),
        other => panic!("{key}: {other:?}"),
    }
}

fn no_account() -> Account {
    Account { account: None, api_key: None }
}

fn acct(identity: &str) -> AccountConfig {
    AccountConfig { identity: identity.to_string(), plan: "developer".to_string(), added_at: "t".to_string() }
}

#[test]
fn search_payload_with_every_option() {
    let args = Search {
        query: "agentic coding".to_string(),
        max: 10,
        sort: "Top".to_string(),
        lang: Some("en".to_string()),
        verified: true,
        images: true,
        videos: true,
        since: Some("2025-01-01".to_string()),
        until: Some("2025-12-31".to_string()),
        account: no_account(),
    };
    let p = search_payload(&args);
    assert_eq!(
        keys(&p),
        vec![
            "searchTerms", "maxItems", "sort", "onlyVerifiedUsers", "onlyImage", "onlyVideo", "onlyQuote",
            "tweetLanguage", "start", "end"
        ]
    );
    assert_eq!(texts(&p, "searchTerms"), vec!["agentic coding"]);
    assert_eq!(number(&p, "maxItems"), "10");
    assert_eq!(text(&p, "sort"), "Top");
    assert!(flag(&p, "onlyVerifiedUsers") && flag(&p, "onlyImage") && flag(&p, "onlyVideo"));
    assert!(!flag(&p, "onlyQuote"));
    assert_eq!(text(&p, "tweetLanguage"), "en");
    assert_eq!(text(&p, "start"), "2025-01-01");
    assert_eq!(text(&p, "end"), "2025-12-31");
}

#[test]
fn search_payload_leaves_out_blank_options() {
    let args = Search {
        query: "rust".to_string(),
        max: -3,
        sort: "Latest".to_string(),
        lang: Some("  ".to_string()),
        verified: false,
        images: false,
        videos: false,
        since: None,
        until: Some(String::new()),
        account: no_account(),
    };
    let p = search_payload(&args);
    assert_eq!(keys(&p).len(), 7);
    assert_eq!(number(&p, "maxItems"), "-3");
    assert!(member(&p, "tweetLanguage").is_none());
}

#[test]
fn scrape_payload_for_urls_and_handles() {
    let mut args = Scrape {
        url: " https://x.com/rustlang ".to_string(),
        max: 50,
        followers: true,
        following: false,
        retweeters: false,
        account: no_account(),
    };
    let p = scrape_payload(&args);
    assert_eq!(keys(&p), vec!["startUrls", "maxItems", "includeFollowers"]);
    assert_eq!(texts(&p, "startUrls"), vec!["https://x.com/rustlang"]);
    assert_eq!(number(&p, "maxItems"), "50");

    args.url = "@@spacecorps".to_string();
    args.followers = false;
    args.following = true;
    args.retweeters = true;
    let p = scrape_payload(&args);
    assert_eq!(keys(&p), vec!["startUrls", "maxItems", "twitterHandles", "includeFollowing", "includeRetweeters"]);
    assert_eq!(texts(&p, "startUrls"), vec!["https://x.com/spacecorps"]);
    assert_eq!(texts(&p, "twitterHandles"), vec!["spacecorps"]);
}

#[test]
fn add_target_checks_the_name() {
    let mut c = Config::new();
    let e = add_target(Via::AccountsAdd, "  ", &c, false).unwrap_err();
    assert_eq!(e.code, ErrorCode::InvalidInput);
    assert_eq!(e.message, "An account name is required.");
    assert_eq!(add_target(Via::Login, " work ", &c, false).unwrap(), ("work".to_string(), false));
    c.insert("Work".to_string(), acct("devuser"));
    let e = add_target(Via::AccountsAdd, "work", &c, false).unwrap_err();
    assert_eq!(e.message, "An account named 'Work' already exists.");
    assert_eq!(
        e.remediation.as_deref(),
        Some("Pick a different name, or replace its key: twitter accounts add Work --api-key <key> --force")
    );
    let e = add_target(Via::Login, "WORK", &c, false).unwrap_err();
    assert_eq!(e.remediation.as_deref(), Some("Use --force to replace its key: twitter login Work --force"));
    assert_eq!(add_target(Via::Login, "work", &c, true).unwrap(), ("Work".to_string(), true));
}

#[test]
fn where_keys_come_from() {
    assert_eq!(stdin_key(" token\n").unwrap(), "token");
    let e = stdin_key("\n").unwrap_err();
    assert_eq!(e.message, "--api-key-stdin was given but stdin was empty.");
    assert_eq!(stdin_error("broken pipe").message, "Could not read stdin: broken pipe");
    assert_eq!(prompted_key("  abc "), Some("abc".to_string()));
    assert_eq!(prompted_key("   "), None);
}

#[test]
fn prompting_texts() {
    assert_eq!(key_prompt(Via::AccountsAdd, "work"), "Apify API token for work: ");
    assert_eq!(key_prompt(Via::Login, "work"), "Paste your Apify API token for 'work': ");
    assert_eq!(empty_answer_note(Via::AccountsAdd), "Cannot be empty");
    assert_eq!(
        empty_answer_note(Via::Login),
        format!("Token cannot be empty. Paste your Apify API token from {API_KEYS_URL}")
    );
    let e = no_terminal(Via::Login, "ci");
    assert_eq!(e.message, "No API key given and no terminal to prompt on.");
    assert_eq!(e.remediation.as_deref(), Some("pbpaste | twitter login ci --api-key-stdin"));
    let e = no_terminal(Via::AccountsAdd, "ci");
    assert_eq!(e.remediation.as_deref(), Some("pbpaste | twitter accounts add ci --api-key-stdin"));
    let e = prompt_failure("no tty".to_string());
    assert_eq!(e.code, ErrorCode::Error);
    assert_eq!(e.message, "Could not read the API key.");
    assert_eq!(e.detail.as_deref(), Some("no tty"));
}

#[test]
fn login_messages() {
    assert_eq!(login_message("devuser", "primary"), "Successfully logged in as devuser to account 'primary'.");
    assert_eq!(login_message("", "primary"), "Successfully logged in to account 'primary'.");
}

#[test]
fn recording_then_finding_an_account() {
    let mut c = Config::new();
    let (name, replaced) = add_target(Via::AccountsAdd, "Work", &c, false).unwrap();
    assert!(!replaced);
    record(&mut c, name, "devuser".to_string(), "developer".to_string(), "2026-01-01T00:00:00Z".to_string());
    let (found, a) = c.find("work").unwrap();
    assert_eq!(found, "Work");
    assert_eq!(a.identity, "devuser");
    let (name, replaced) = add_target(Via::Login, "WORK", &c, true).unwrap();
    assert!(replaced);
    record(&mut c, name, "other".to_string(), "".to_string(), "t2".to_string());
    assert_eq!(c.entries().len(), 1);
    assert_eq!(c.find("Work").unwrap().1.identity, "other");
}

#[test]
fn added_report_fields() {
    let r = added_report(Via::AccountsAdd, false, "work", "devuser", "developer", true, Store::Plaintext, "/cfg");
    assert_eq!(
        keys(&r),
        vec!["status", "name", "identity", "plan", "verified", "secretStore", "configDir", "nextStep"]
    );
    assert_eq!(text(&r, "status"), "added");
    assert_eq!(text(&r, "secretStore"), "plaintext");
    assert!(flag(&r, "verified"));
    assert_eq!(text(&r, "nextStep"), "twitter search \"agentic coding\" --account work");
    let r = added_report(Via::AccountsAdd, true, "work", "", "", false, Store::Keychain, "/cfg");
    assert_eq!(text(&r, "status"), "replaced");
    let r = added_report(Via::Login, true, "primary", "devuser", "", true, Store::Keychain, "/cfg");
    assert_eq!(text(&r, "status"), "logged_in");
}

#[test]
fn key_statuses() {
    let rejected: Result<Json, Error> = Err(Error {
        code: ErrorCode::AuthRequired,
        message: String::new(),
        detail: None,
        remediation: None,
    });
    let down: Result<Json, Error> =
        Err(Error { code: ErrorCode::Network, message: String::new(), detail: None, remediation: None });
    let ok: Result<Json, Error> = Ok(Json::Null);
    let key: Result<Option<String>, Error> = Ok(Some("k".to_string()));
    assert_eq!(status_of(&key, None), "stored");
    assert_eq!(status_of(&key, Some(&ok)), "valid");
    assert_eq!(status_of(&key, Some(&rejected)), "rejected");
    assert_eq!(status_of(&key, Some(&down)), "unreachable");
    assert_eq!(status_of(&Ok(Some(" ".to_string())), Some(&ok)), "missing_key");
    assert_eq!(status_of(&Ok(None), None), "missing_key");
    let unreadable: Result<Option<String>, Error> =
        Err(Error { code: ErrorCode::Error, message: String::new(), detail: None, remediation: None });
    assert_eq!(status_of(&unreadable, Some(&ok)), "unreadable");
    assert_eq!(usable_key(&key).map(|s| s.as_str()), Some("k"));
    assert!(usable_key(&Ok(Some("\t".to_string()))).is_none());
}

#[test]
fn list_report_in_listing_order() {
    let mut c = Config::new();
    c.insert("work".to_string(), acct("devuser"));
    c.insert("Alpha".to_string(), acct(""));
    let listing = c.sorted();
    let statuses = vec!["stored".to_string(), "missing_key".to_string()];
    let r = list_report(&listing, &statuses, Store::Plaintext, "/cfg");
    assert_eq!(keys(&r), vec!["count", "accounts", "secretStore", "configDir"]);
    assert_eq!(number(&r, "count"), "2");
    match member(&r, "accounts") {
        Some(Json::Array(items)) => {
            assert_eq!(items.len(), 2);
            assert_eq!(text(&items[0], "name"), "Alpha");
            assert_eq!(text(&items[0], "keyStatus"), "stored");
            assert_eq!(text(&items[1], "name"), "work");
            assert_eq!(text(&items[1], "identity"), "devuser");
            assert_eq!(text(&items[1], "plan"), "developer");
            assert_eq!(text(&items[1], "addedAt"), "t");
            assert_eq!(keys(&items[1]), vec!["name", "identity", "plan", "addedAt", "keyStatus"]);
        }
        other => panic!("{other:?}"),
    }
}

#[test]
fn identity_drift() {
    assert_eq!(drift("devuser", "DevUser"), None);
    assert_eq!(drift("", "someone"), None);
    assert_eq!(drift("someone", " "), None);
    assert_eq!(
        drift("devuser", "other"),
        Some("This account was added as devuser, but the stored key now reports other.".to_string())
    );
    let same = "x@y.z";
    assert_eq!(drift(same, same), None);
}

#[test]
fn test_report_with_and_without_warning() {
    let me = Json::Object(vec![("username".to_string(), Json::Str("devuser".to_string()))]);
    let r = test_report("work", "devuser", me);
    assert_eq!(keys(&r), vec!["name", "identity", "plan", "keyStatus", "me"]);
    assert_eq!(text(&r, "identity"), "devuser");
    assert_eq!(text(&r, "plan"), "");
    assert_eq!(text(&r, "keyStatus"), "valid");
    let me = Json::Object(vec![("username".to_string(), Json::Str("newuser".to_string()))]);
    let r = test_report("work", "devuser", me);
    assert_eq!(
        text(&r, "warning"),
        "This account was added as devuser, but the stored key now reports newuser."
    );
}

#[test]
fn removing_accounts() {
    let mut c = Config::new();
    c.insert("Work".to_string(), acct("devuser"));
    c.insert("home".to_string(), acct(""));
    let e = remove_target("nope", &c).unwrap_err();
    assert_eq!(e.code, ErrorCode::NoAccount);
    assert_eq!(e.message, "No account named 'nope'.");
    assert_eq!(e.remediation.as_deref(), Some("twitter accounts list"));
    let (name, a) = remove_target("WORK", &c).unwrap();
    assert_eq!(name, "Work");
    assert_eq!(confirm_prompt(&name, &a), "Remove account Work (devuser)? [y/N] ");
    let e = confirmation_unavailable(&name);
    assert_eq!(e.message, "Removing 'Work' needs confirmation and there is no terminal to ask on.");
    assert_eq!(e.remediation.as_deref(), Some("twitter accounts remove Work --yes"));
    assert!(confirmed(" Y\n"));
    assert!(confirmed("yes"));
    assert!(confirmed("YeS"));
    assert!(!confirmed("no"));
    assert!(!confirmed(""));
    assert!(!confirmed("yess"));
    assert_eq!(cancelled().message, "Cancelled.");
    forget(&mut c, &name);
    assert!(c.find("work").is_none());
    assert_eq!(c.entries().len(), 1);
    let r = removed_report(&name, &a.identity);
    assert_eq!(keys(&r), vec!["status", "name", "identity", "note"]);
    assert_eq!(text(&r, "status"), "removed");
    assert_eq!(
        text(&r, "note"),
        "The API token was deleted locally. Revoke it at https://console.apify.com/account/integrations if it should stop working everywhere."
    );
}
