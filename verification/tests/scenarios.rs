//! The command-line scenarios, run through the library the way the program runs them: requests
//! are answered by canned Apify responses, the plaintext store file and the config live in
//! memory.

use twitter_cli::account::identity;
use twitter_cli::account::{resolve_stored, Resolution, Resolved, TokenEnv};
use twitter_cli::cli::{Account, Scrape, Search};
use twitter_cli::client::{read, Client, Method, Request};
use twitter_cli::commands::accounts::{
    account_name, add_target, added_report, forget, list_report, record, remove_target, removed_report, status_of,
    test_report, usable_key, Via,
};
use twitter_cli::commands::resolve;
use twitter_cli::commands::scrape::scrape_payload;
use twitter_cli::commands::search::search_payload;
use twitter_cli::config::{now_utc, Config};
use twitter_cli::error::{Error, ErrorCode};
use twitter_cli::json::Json;
use twitter_cli::output::error_envelope;
use twitter_cli::readme::{manual, Manual};
use twitter_cli::secrets::{account_key, Reply, Store, StoreFile};

const API: &str = "http://127.0.0.1:1/v2/";

const ME: &[u8] =
    br#"{"data":{"id":"user_123","username":"devuser","email":"dev@example.com","plan":"developer"}}"#;

const TWEETS: &[u8] = br#"[{"id":"tweet_1","text":"Agentic coding in Rust is blazing fast!","userName":"rustacean","likes":42},{"id":"tweet_2","text":"SpaceCorps delivers production-grade CLI tools.","userName":"spacecorps","likes":128}]"#;

/// A machine with a config file, a plaintext store file, and a canned Apify API.
struct Machine {
    config: Config,
    secrets: Option<Vec<u8>>,
    sent: Vec<Request>,
}

impl Machine {
    fn new() -> Machine {
        Machine { config: Config::new(), secrets: None, sent: Vec::new() }
    }

    fn file(&self) -> Reply {
        Reply::Read(StoreFile { path: "/cfg/secrets.json".to_string(), contents: self.secrets.clone() })
    }

    /// Answers a request as the mock API does: `users/me` and the actor, else 404.
    fn send(&mut self, req: Request) -> Result<Json, Error> {
        let (status, body): (u16, &[u8]) = if req.url.ends_with("users/me") && req.method == Method::Get {
            (200, ME)
        } else if req.url.contains("acts/apidojo~tweet-scraper/run-sync-get-dataset-items") && req.method == Method::Post
        {
            (200, TWEETS)
        } else {
            (404, br#"{"error":{"type":"not_found","message":"no route"}}"#)
        };
        self.sent.push(req);
        read(status, body)
    }

    fn add(&mut self, via: Via, name: &str, key: &str) -> Json {
        let name = account_name(name).unwrap();
        let (name, replaced) = add_target(via, &name, &self.config, false).unwrap();
        let me = self.send(Client::new(key, Some(API.to_string())).me()).unwrap();
        let (ident, plan) = (identity::describe(&me), identity::plan(&me));
        self.secrets = Store::Plaintext.set(&account_key(&name), key, &self.file()).unwrap();
        record(&mut self.config, name.clone(), ident.clone(), plan.clone(), now_utc());
        added_report(via, replaced, &name, &ident, &plan, true, Store::Plaintext, "/cfg")
    }

    fn resolve(&mut self, account: Option<&str>, key: Option<&str>, env: &TokenEnv) -> Result<Resolved, Error> {
        let a = Account { account: account.map(|s| s.to_string()), api_key: key.map(|s| s.to_string()) };
        let mut config = None;
        loop {
            match resolve(&a, config.as_ref(), env) {
                Resolution::Resolved(r) => return Ok(r),
                Resolution::Failed(e) => return Err(e),
                Resolution::NeedConfig => config = Some(self.config.clone_config()),
                Resolution::NeedKey { name, account } => {
                    let key = Store::Plaintext.get(&account_key(&name), &self.file())?;
                    return resolve_stored(name, account, key);
                }
            }
        }
    }

    fn list(&mut self, check: bool) -> Json {
        let listing = self.config.sorted();
        let mut statuses = Vec::new();
        for (name, _) in &listing {
            let stored = Store::Plaintext.get(&account_key(name), &self.file());
            let checked = if check {
                usable_key(&stored).map(|k| self.send(Client::new(k, Some(API.to_string())).me()))
            } else {
                None
            };
            statuses.push(status_of(&stored, checked.as_ref()));
        }
        list_report(&listing, &statuses, Store::Plaintext, "/cfg")
    }
}

trait CloneConfig {
    fn clone_config(&self) -> Config;
}

impl CloneConfig for Config {
    fn clone_config(&self) -> Config {
        let mut c = Config::new();
        for (name, a) in self.entries() {
            c.insert(name, a);
        }
        c
    }
}

fn no_env() -> TokenEnv {
    TokenEnv { apify_token: None, twitter_api_token: None }
}

fn member<'a>(j: &'a Json, key: &str) -> &'a Json {
    match j {
        Json::Object(ms) => &ms.iter().find(|(k, _)| k == key).unwrap_or_else(|| panic!("no {key} in {j:?}")).1,
        _ => panic!("not an object: {j:?}"),
    }
}

fn at(j: &Json, i: usize) -> &Json {
    match j {
        Json::Array(items) => &items[i],
        _ => panic!("not an array: {j:?}"),
    }
}

fn is_text(j: &Json, t: &str) -> bool {
    matches!(j, Json::Str(s) if s == t)
}

fn is_number(j: &Json, n: &str) -> bool {
    matches!(j, Json::Number(s) if s == n)
}

fn len(j: &Json) -> usize {
    match j {
        Json::Array(items) => items.len(),
        _ => panic!("not an array: {j:?}"),
    }
}

fn search_args(query: &str, account: Account) -> Search {
    Search {
        query: query.to_string(),
        max: 20,
        sort: "Latest".to_string(),
        lang: None,
        verified: false,
        images: false,
        videos: false,
        since: None,
        until: None,
        account,
    }
}

#[test]
fn accounts_lifecycle() {
    let mut m = Machine::new();
    let added = m.add(Via::AccountsAdd, "work", "apify_test_token");
    assert!(is_text(member(&added, "status"), "added"));
    assert_eq!(m.sent.last().unwrap().authorization, "Bearer apify_test_token");

    let out = m.list(false);
    assert!(is_number(member(&out, "count"), "1"));
    let first = at(member(&out, "accounts"), 0);
    assert!(is_text(member(first, "name"), "work"));
    assert!(is_text(member(first, "identity"), "devuser"));
    assert!(is_text(member(first, "plan"), "developer"));
    assert!(is_text(member(first, "keyStatus"), "stored"));
    assert!(is_text(member(&out, "secretStore"), "plaintext"));

    let out = m.list(true);
    assert!(is_text(member(at(member(&out, "accounts"), 0), "keyStatus"), "valid"));

    let account = m.resolve(Some("work"), None, &no_env()).unwrap();
    let me = m.send(account.client(Some(API.to_string())).me()).unwrap();
    let out = test_report(&account.name, &account.config.identity, me);
    assert!(is_text(member(&out, "identity"), "devuser"));
    assert!(is_text(member(&out, "keyStatus"), "valid"));

    let (name, acct) = remove_target("work", &m.config).unwrap();
    m.secrets = Store::Plaintext.delete(&account_key(&name), &m.file()).unwrap().or(m.secrets.take());
    forget(&mut m.config, &name);
    let out = removed_report(&name, &acct.identity);
    assert!(is_text(member(&out, "status"), "removed"));

    let out = m.list(false);
    assert!(is_number(member(&out, "count"), "0"));
    assert_eq!(Store::Plaintext.get(&account_key("work"), &m.file()).unwrap(), None);
}

#[test]
fn login_command() {
    let mut m = Machine::new();
    let out = m.add(Via::Login, "primary", "apify_primary_token");
    assert!(is_text(member(&out, "status"), "logged_in"));
    assert!(is_text(member(&out, "name"), "primary"));
    assert!(is_text(member(&out, "identity"), "devuser"));

    let account = m.resolve(Some("primary"), None, &no_env()).unwrap();
    assert_eq!(account.api_key, "apify_primary_token");
    let out = m.send(account.client(Some(API.to_string())).me()).unwrap();
    assert!(is_text(member(member(&out, "data"), "username"), "devuser"));
}

#[test]
fn search_tweets() {
    let mut m = Machine::new();
    m.add(Via::AccountsAdd, "work", "apify_test_token");
    let work = Account { account: Some("work".to_string()), api_key: None };
    let mut args = search_args("agentic coding", work.clone());
    args.max = 10;
    args.sort = "Top".to_string();
    args.lang = Some("en".to_string());
    args.verified = true;
    args.images = true;
    args.videos = true;
    args.since = Some("2025-01-01".to_string());
    args.until = Some("2025-12-31".to_string());

    let client = m.resolve(Some("work"), None, &no_env()).unwrap().client(Some(API.to_string()));
    let out = m.send(client.search(search_payload(&args))).unwrap();
    assert_eq!(len(&out), 2);
    assert!(is_text(member(at(&out, 0), "id"), "tweet_1"));
    assert!(is_text(member(at(&out, 1), "userName"), "spacecorps"));

    let payload = m.sent.last().unwrap().body.as_ref().expect("payload should exist");
    assert!(is_text(at(member(payload, "searchTerms"), 0), "agentic coding"));
    assert!(is_number(member(payload, "maxItems"), "10"));
    assert!(is_text(member(payload, "sort"), "Top"));
    assert!(is_text(member(payload, "tweetLanguage"), "en"));
    assert!(matches!(member(payload, "onlyVerifiedUsers"), Json::Bool(true)));
    assert!(matches!(member(payload, "onlyImage"), Json::Bool(true)));
    assert!(matches!(member(payload, "onlyVideo"), Json::Bool(true)));
    assert!(is_text(member(payload, "start"), "2025-01-01"));
    assert!(is_text(member(payload, "end"), "2025-12-31"));
}

#[test]
fn scrape_profile_and_thread() {
    let mut m = Machine::new();
    m.add(Via::AccountsAdd, "work", "apify_test_token");
    let work = Account { account: Some("work".to_string()), api_key: None };
    let client = m.resolve(Some("work"), None, &no_env()).unwrap().client(Some(API.to_string()));

    let args = Scrape {
        url: "https://x.com/rustlang".to_string(),
        max: 50,
        followers: true,
        following: false,
        retweeters: false,
        account: work.clone(),
    };
    let out = m.send(client.scrape(scrape_payload(&args))).unwrap();
    assert!(matches!(out, Json::Array(_)));
    let payload = m.sent.last().unwrap().body.as_ref().expect("payload should exist");
    assert!(is_text(at(member(payload, "startUrls"), 0), "https://x.com/rustlang"));
    assert!(is_number(member(payload, "maxItems"), "50"));
    assert!(matches!(member(payload, "includeFollowers"), Json::Bool(true)));

    let args = Scrape {
        url: "@spacecorps".to_string(),
        max: 20,
        followers: false,
        following: false,
        retweeters: false,
        account: work,
    };
    let out = m.send(client.scrape(scrape_payload(&args))).unwrap();
    assert!(matches!(out, Json::Array(_)));
    let payload = m.sent.last().unwrap().body.as_ref().unwrap();
    assert!(is_text(at(member(payload, "startUrls"), 0), "https://x.com/spacecorps"));
    assert!(is_text(at(member(payload, "twitterHandles"), 0), "spacecorps"));
}

#[test]
fn ad_hoc_api_key_and_env_token() {
    let mut m = Machine::new();
    let client = m.resolve(None, Some("token_adhoc"), &no_env()).unwrap().client(Some(API.to_string()));
    let out = m.send(client.search(search_payload(&search_args("rust", Account { account: None, api_key: None }))));
    assert!(matches!(out, Ok(Json::Array(_))));
    assert_eq!(m.sent.last().unwrap().authorization, "Bearer token_adhoc");

    let env = TokenEnv { apify_token: Some("token_from_env".to_string()), twitter_api_token: None };
    let client = m.resolve(None, None, &env).unwrap().client(Some(API.to_string()));
    let out = m.send(client.search(search_payload(&search_args("rust", Account { account: None, api_key: None }))));
    assert!(out.is_ok());
    assert_eq!(m.sent.last().unwrap().authorization, "Bearer token_from_env");
}

#[test]
fn agent_readme_text_and_json() {
    let out = match manual(true) {
        Manual::Data(v) => v,
        other => panic!("{other:?}"),
    };
    assert!(is_text(member(&out, "tool"), "twitter"));
    assert!(matches!(member(&out, "rules"), Json::Array(_)));
    assert!(is_text(member(member(&out, "exitCodes"), "0"), "ok"));
    assert!(is_text(
        member(member(&out, "exitCodes"), "3"),
        "auth_required - stop, surface the remediation to a human"
    ));
    match manual(false) {
        Manual::Text(t) => assert!(t.contains("# twitter - agent operating manual")),
        other => panic!("{other:?}"),
    }
}

#[test]
fn error_mapping_and_envelopes() {
    let body = br#"{"error":{"type":"user-or-token-not-found","message":"User was not found or authentication token is not valid"}}"#;
    let e = read(401, body).unwrap_err();
    let (envelope, code) = error_envelope(&e);
    assert_eq!(code, 3);
    assert!(is_text(member(&envelope, "code"), "auth_required"));
    match member(&envelope, "remediation") {
        Json::Str(s) => assert!(s.contains("twitter login")),
        other => panic!("{other:?}"),
    }

    let mut m = Machine::new();
    m.add(Via::AccountsAdd, "work", "apify_test_token");
    let e = m.resolve(None, None, &no_env()).unwrap_err();
    let (envelope, code) = error_envelope(&e);
    assert_eq!(code, 7);
    assert!(is_text(member(&envelope, "code"), "no_account"));

    let e = Error::invalid("the following required arguments were not provided".to_string());
    let (envelope, code) = error_envelope(&e);
    assert_eq!(code, 6);
    assert!(is_text(member(&envelope, "code"), "invalid_input"));
    assert_eq!(ErrorCode::InvalidInput.exit_code(), 6);
}
