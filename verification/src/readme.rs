//! The manual an agent reads before its first call: Markdown text, or, with `--json`, data giving
//! the tool, the API it drives, the rules of use, and what each exit status means.

use vstd::prelude::*;

use crate::text::cat;
use crate::json::{follows, lemma_follows_empty, object_is, put_shaped, text, texts, Json, Shape};

verus! {

/// The API the tool drives.
pub const API_VERSION: &'static str = "Apify v2 (apidojo/tweet-scraper)";

/// The rules of use, in order.
pub open spec fn spec_rules() -> Seq<Seq<char>> {
    seq![
        "Pass --account <name> to use stored credentials, or pass --api-key <key> / set APIFY_TOKEN."@,
        "Run 'twitter accounts list' first if you do not know which accounts exist."@,
        "On code auth_required, stop and surface the remediation string. Do not retry."@,
        "Search and scrape commands invoke Apify actors synchronously and may take 30–60s."@,
        "Use --json when you are going to parse or pipe the output."@,
        "Empty responses return an empty JSON array '[]' rather than blank output."@,
    ]
}

/// The rules of use.
pub fn rules() -> (r: Vec<String>)
    ensures
        r@.map_values(|s: String| s@) == spec_rules(),
{
    let mut r: Vec<String> = Vec::new();
    r.push(String::from_str("Pass --account <name> to use stored credentials, or pass --api-key <key> / set APIFY_TOKEN."));
    r.push(String::from_str("Run 'twitter accounts list' first if you do not know which accounts exist."));
    r.push(String::from_str("On code auth_required, stop and surface the remediation string. Do not retry."));
    r.push(String::from_str("Search and scrape commands invoke Apify actors synchronously and may take 30–60s."));
    r.push(String::from_str("Use --json when you are going to parse or pipe the output."));
    r.push(String::from_str("Empty responses return an empty JSON array '[]' rather than blank output."));
    assert(r@.map_values(|s: String| s@) =~= spec_rules());
    r
}

/// What each exit status means, keyed by the status.
pub open spec fn exit_codes_form() -> Seq<(Seq<char>, Shape)> {
    seq![
        ("0"@, Shape::Text("ok"@)),
        ("1"@, Shape::Text("error - unclassified, report and stop"@)),
        ("2"@, Shape::Text("network - retry once, then stop"@)),
        ("3"@, Shape::Text("auth_required - stop, surface the remediation to a human"@)),
        ("4"@, Shape::Text("not_found - do not retry"@)),
        ("5"@, Shape::Text("rate_limited - back off before retrying"@)),
        ("6"@, Shape::Text("invalid_input - fix the call"@)),
        ("7"@, Shape::Text("no_account - run twitter accounts list or twitter login"@)),
    ]
}

/// The manual as data: the tool's name, the API, the rules, and the exit statuses.
pub open spec fn manual_form(exit_codes: Json) -> Seq<(Seq<char>, Shape)> {
    seq![
        ("tool"@, Shape::Text("twitter"@)),
        ("apiVersion"@, Shape::Text(API_VERSION@)),
        ("rules"@, Shape::Texts(spec_rules())),
        ("exitCodes"@, Shape::Is(exit_codes)),
    ]
}

fn exit_codes() -> (r: Json)
    ensures
        object_is(r, exit_codes_form()),
{
    let mut ms: Vec<(String, Json)> = Vec::new();
    proof {
        lemma_follows_empty(ms@);
    }
    let ghost f = Seq::<(Seq<char>, Shape)>::empty();
    let d = "ok";
    put_shaped(&mut ms, "0", text(d), Ghost(f), Ghost(Shape::Text(d@)));
    let ghost f = f.push(("0"@, Shape::Text(d@)));
    let d = "error - unclassified, report and stop";
    put_shaped(&mut ms, "1", text(d), Ghost(f), Ghost(Shape::Text(d@)));
    let ghost f = f.push(("1"@, Shape::Text(d@)));
    let d = "network - retry once, then stop";
    put_shaped(&mut ms, "2", text(d), Ghost(f), Ghost(Shape::Text(d@)));
    let ghost f = f.push(("2"@, Shape::Text(d@)));
    let d = "auth_required - stop, surface the remediation to a human";
    put_shaped(&mut ms, "3", text(d), Ghost(f), Ghost(Shape::Text(d@)));
    let ghost f = f.push(("3"@, Shape::Text(d@)));
    let d = "not_found - do not retry";
    put_shaped(&mut ms, "4", text(d), Ghost(f), Ghost(Shape::Text(d@)));
    let ghost f = f.push(("4"@, Shape::Text(d@)));
    let d = "rate_limited - back off before retrying";
    put_shaped(&mut ms, "5", text(d), Ghost(f), Ghost(Shape::Text(d@)));
    let ghost f = f.push(("5"@, Shape::Text(d@)));
    let d = "invalid_input - fix the call";
    put_shaped(&mut ms, "6", text(d), Ghost(f), Ghost(Shape::Text(d@)));
    let ghost f = f.push(("6"@, Shape::Text(d@)));
    let d = "no_account - run twitter accounts list or twitter login";
    put_shaped(&mut ms, "7", text(d), Ghost(f), Ghost(Shape::Text(d@)));
    let ghost f = f.push(("7"@, Shape::Text(d@)));
    assert(f =~= exit_codes_form());
    Json::Object(ms)
}

/// The manual as data, as `agent-readme --json` prints it.
pub fn manual_data() -> (r: Json)
    ensures
        r matches Json::Object(ms) && ms@.len() == 4 && object_is(ms@[3].1, exit_codes_form())
            && object_is(r, manual_form(ms@[3].1)),
{
    let codes = exit_codes();
    let ghost codes_v = codes;
    let mut ms: Vec<(String, Json)> = Vec::new();
    proof {
        lemma_follows_empty(ms@);
    }
    let ghost f = Seq::<(Seq<char>, Shape)>::empty();
    put_shaped(&mut ms, "tool", text("twitter"), Ghost(f), Ghost(Shape::Text("twitter"@)));
    let ghost f = f.push(("tool"@, Shape::Text("twitter"@)));
    put_shaped(&mut ms, "apiVersion", text(API_VERSION), Ghost(f), Ghost(Shape::Text(API_VERSION@)));
    let ghost f = f.push(("apiVersion"@, Shape::Text(API_VERSION@)));
    let rs = rules();
    put_shaped(&mut ms, "rules", texts(&rs), Ghost(f), Ghost(Shape::Texts(spec_rules())));
    let ghost f = f.push(("rules"@, Shape::Texts(spec_rules())));
    put_shaped(&mut ms, "exitCodes", codes, Ghost(f), Ghost(Shape::Is(codes_v)));
    let ghost f = f.push(("exitCodes"@, Shape::Is(codes_v)));
    assert(f =~= manual_form(codes_v));
    proof {
        reveal(follows);
    }
    Json::Object(ms)
}

/// The title of the manual.
pub const MANUAL_TITLE: &'static str = "# twitter - agent operating manual";

/// The manual in Markdown after its title line.
pub const MANUAL_BODY: &'static str = r#"

A native CLI for searching and scraping Twitter/X via Apify (actor `apidojo~tweet-scraper`).
Results are YAML on stdout by default, errors are YAML on stderr, and `--json` switches both to JSON.
Progress notices are sent only to interactive stderr, so stdout is always clean and safe to parse.

## Authentication & Accounts

Twitter CLI supports deterministic multi-account credential management via native OS keystores
(Keychain on macOS, Windows DPAPI, libsecret on Linux) as well as direct API tokens.

    twitter login [<name>]                      # opens Apify dashboard to copy token
    twitter accounts add <name> --api-key <key> # store token in OS keystore
    printf %s "$KEY" | twitter accounts add <name> --api-key-stdin
    twitter accounts list [--check]             # inspect configured accounts
    twitter accounts test <name>                # test account credentials
    twitter accounts remove <name> --yes        # remove stored account

When running commands:
- Pass `--account <name>` (short `-a <name>`) to select a stored account.
- Pass `--api-key <key>` for ad-hoc script runs.
- Set `APIFY_TOKEN` (or `TWITTER_API_TOKEN`) in the environment as a fallback.

## Search Tweets

Search Twitter/X for tweets matching keywords, hashtags, or mentions:

    twitter search "agentic coding"
    twitter search "LLM agents" --sort Top --max 10
    twitter search "AI coding" --lang en --since 2025-01-01
    twitter search "developer tools" --verified
    twitter search "rust lang" --images --max 15
    twitter search "release announcement" --videos

Options:
- `--max <N>`: Maximum tweets to return (default: 20)
- `--sort <SORT>`: Sort order: Latest, Top (default: Latest)
- `--lang <LANG>`: Filter by tweet language (e.g. en, sv, de, ja)
- `--verified`: Only tweets from verified users
- `--images`: Only tweets containing images
- `--videos`: Only tweets containing videos
- `--since <DATE>`: Tweets after this date (YYYY-MM-DD)
- `--until <DATE>`: Tweets before this date (YYYY-MM-DD)

## Scrape Profiles and Threads

Scrape a user profile, tweet, or conversation thread:

    # Scrape a profile
    twitter scrape "https://x.com/username" --max 50
    twitter scrape "@username" --max 50

    # Scrape a specific tweet or thread
    twitter scrape "https://x.com/username/status/123456789"

Options:
- `--max <N>`: Maximum tweets to return (default: 20)
- `--followers`: Include followers list (profile URLs only)
- `--following`: Include following list (profile URLs only)
- `--retweeters`: Include retweeters (tweet URLs only)

## Identity Verification

Check your current token identity and account metadata:

    twitter me
    twitter me -a work

## Agent Automation & JSON Mode

Add `--json` anywhere on the command line for structured, machine-parseable output:

    twitter search "agentic coding" --json | jq '.[0].text'
    twitter agent-readme --json

## Error Codes & Envelopes

Failures print YAML (or JSON with `--json`) on stderr with a stable `code` and exit status:

    0  ok
    1  error          unclassified - report it and stop
    2  network        retry once, then stop
    3  auth_required  stop; give the human the remediation string verbatim
    4  not_found      the requested actor or resource was not found
    5  rate_limited   back off before trying again
    6  invalid_input  fix the arguments or parameters
    7  no_account     run `twitter login <name>` or provide `--account <name>`
"#;

/// The manual in Markdown, as `agent-readme` prints it without `--json`: the title, then the
/// body.
pub open spec fn manual_text() -> Seq<char> {
    MANUAL_TITLE@ + MANUAL_BODY@
}

/// The manual opens with its title.
pub proof fn lemma_manual_title()
    ensures
        manual_text().len() >= 34,
        manual_text().take(34) == "# twitter - agent operating manual"@,
{
    reveal_strlit("# twitter - agent operating manual");
    assert(MANUAL_TITLE@ == "# twitter - agent operating manual"@);
    assert(MANUAL_TITLE@.len() == 34);
    assert(manual_text().take(34) =~= MANUAL_TITLE@);
}

/// The manual in the form asked for: Markdown text, or data for `--json`.
#[derive(Debug)]
pub enum Manual {
    Text(String),
    Data(Json),
}

/// The manual `agent-readme` prints: the data with `--json`, else the Markdown text.
pub fn manual(as_json: bool) -> (r: Manual)
    ensures
        as_json ==> (r matches Manual::Data(j) && (j matches Json::Object(ms) && ms@.len() == 4
            && object_is(ms@[3].1, exit_codes_form()) && object_is(j, manual_form(ms@[3].1)))),
        !as_json ==> (r matches Manual::Text(t) && t@ == manual_text()),
{
    if as_json {
        Manual::Data(manual_data())
    } else {
        Manual::Text(cat(MANUAL_TITLE, MANUAL_BODY))
    }
}

} // verus!
