//! The command tree: one variant per command, with the options each takes.

use vstd::prelude::*;

verus! {

/// The whole command line.
#[derive(Debug)]
pub struct Cli {
    /// Print raw JSON instead of YAML, for scripting.
    pub json: bool,
    pub command: Command,
}

/// Credential options for commands that call the API.
#[derive(Clone, Debug)]
pub struct Account {
    /// Account to run against (see 'twitter accounts list').
    pub account: Option<String>,
    /// Direct Apify API token (or set APIFY_TOKEN env var).
    pub api_key: Option<String>,
}

/// The commands.
#[derive(Debug)]
pub enum Command {
    /// Search Twitter/X for tweets matching a query.
    Search(Search),
    /// Scrape a Twitter/X URL (profile, tweet, or thread).
    Scrape(Scrape),
    /// Get current identity and token context from Apify.
    Me(Me),
    /// Log in with an Apify API token (opens browser to copy token).
    Login(Login),
    /// Print the operating manual for an LLM agent driving this CLI.
    AgentReadme,
    /// Manage Twitter CLI accounts and their Apify API tokens.
    Accounts(Accounts),
}

/// `twitter search <query>`.
#[derive(Clone, Debug)]
pub struct Search {
    /// Search query (keywords, hashtags, or @mentions).
    pub query: String,
    /// Maximum tweets to return (default 20).
    pub max: i32,
    /// Sort by: Latest, Top (default Latest).
    pub sort: String,
    /// Filter by tweet language (e.g. en, sv, de).
    pub lang: Option<String>,
    /// Only tweets from verified users.
    pub verified: bool,
    /// Only tweets with images.
    pub images: bool,
    /// Only tweets with videos.
    pub videos: bool,
    /// Tweets after this date (YYYY-MM-DD).
    pub since: Option<String>,
    /// Tweets before this date (YYYY-MM-DD).
    pub until: Option<String>,
    pub account: Account,
}

/// `twitter scrape <url>`.
#[derive(Clone, Debug)]
pub struct Scrape {
    /// Twitter/X URL to scrape (profile, tweet, or thread), or a handle.
    pub url: String,
    /// Maximum tweets to return (default 20).
    pub max: i32,
    /// Include followers list (profile URLs only).
    pub followers: bool,
    /// Include following list (profile URLs only).
    pub following: bool,
    /// Include retweeters (tweet URLs only).
    pub retweeters: bool,
    pub account: Account,
}

/// `twitter me`.
#[derive(Clone, Debug)]
pub struct Me {
    pub account: Account,
}

/// `twitter login [<name>]`.
#[derive(Clone, Debug)]
pub struct Login {
    /// Account name to store under (defaults to 'default').
    pub name: String,
    /// Apify API token (prompts securely if omitted).
    pub api_key: Option<String>,
    /// Read the API token from stdin rather than prompting.
    pub api_key_stdin: bool,
    /// Do not attempt to open the Apify token dashboard in a browser.
    pub no_browser: bool,
    /// Overwrite an existing account of the same name.
    pub force: bool,
    /// Store the key without checking that it works.
    pub skip_verify: bool,
}

/// `twitter accounts add|list|test|remove`.
#[derive(Clone, Debug)]
pub enum Accounts {
    /// Add an account and store its API token in the OS keystore.
    Add { name: String, api_key: Option<String>, api_key_stdin: bool, force: bool, skip_verify: bool },
    /// List configured accounts (`check`: verify each stored key against the Apify API).
    List { check: bool },
    /// Test an account's API token against the Apify API.
    Test { name: String },
    /// Remove an account and delete its API token from the OS keystore (`yes`: skip the prompt).
    Remove { name: String, yes: bool },
}

} // verus!
