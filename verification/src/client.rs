//! Requests to the Apify API, and what comes back (an HTTP status and a body) read as a
//! document or as an [`Error`] with a stable code. Sending the request is the caller's.

use vstd::prelude::*;
use vstd::string::*;
use vstd::utf8::*;

use crate::error::{error_with, opt_text, Error, ErrorCode};
use crate::json::{as_text, get, get_member, json_parse, parse, text_of, Json};
use crate::text::{blank, decimal, decimal_of, is_blank, push_char, push_str, trim, trimmed};

verus! {

/// The API root used when none is configured.
pub open spec fn default_base() -> Seq<char> {
    "https://api.apify.com/v2/"@
}

/// The tweet-scraper actor's synchronous run endpoint, without its query.
pub open spec fn actor_path() -> Seq<char> {
    "acts/apidojo~tweet-scraper/run-sync-get-dataset-items?token="@
}

// ---------------------------------------------------------------------------------------------
// Percent-encoding of one path segment
// ---------------------------------------------------------------------------------------------

/// Bytes that stand for themselves in a URL path segment: `A-Z a-z 0-9 - _ . ~`.
pub open spec fn unreserved(b: u8) -> bool {
    ||| 65 <= b <= 90
    ||| 97 <= b <= 122
    ||| 48 <= b <= 57
    ||| b == 45
    ||| b == 95
    ||| b == 46
    ||| b == 126
}

/// The upper-case hexadecimal digit of `d` (`d < 16`).
pub open spec fn hex_digit(d: u8) -> char {
    if d < 10 {
        (48 + d) as char
    } else {
        (55 + d) as char
    }
}

/// One byte as it appears in an encoded segment: itself, or `%` and two upper-case hex digits.
pub open spec fn encode_byte(b: u8) -> Seq<char> {
    if unreserved(b) {
        seq![b as char]
    } else {
        seq!['%', hex_digit(b / 16), hex_digit(b % 16)]
    }
}

/// The percent-encoding of a byte string.
pub open spec fn percent_encode(bs: Seq<u8>) -> Seq<char>
    decreases bs.len(),
{
    if bs.len() == 0 {
        Seq::empty()
    } else {
        percent_encode(bs.drop_last()) + encode_byte(bs.last())
    }
}

/// The value of a hexadecimal digit character.
pub open spec fn hex_value(c: char) -> int {
    let x = c as u32;
    if 48 <= x <= 57 {
        x - 48
    } else if 65 <= x <= 70 {
        x - 55
    } else {
        x - 87
    }
}

/// Percent-decoding: `%hh` is the byte `hh`, any other character is its own code.
pub open spec fn percent_decode(cs: Seq<char>) -> Seq<u8>
    decreases cs.len(),
{
    if cs.len() == 0 {
        Seq::empty()
    } else if cs[0] == '%' && cs.len() >= 3 {
        seq![(hex_value(cs[1]) * 16 + hex_value(cs[2])) as u8] + percent_decode(cs.skip(3))
    } else {
        seq![cs[0] as u8] + percent_decode(cs.drop_first())
    }
}

/// A character that may stand in an encoded segment: an unreserved byte's character, or `%`.
pub open spec fn segment_char(c: char) -> bool {
    c == '%' || (c as u32) < 256 && unreserved(c as u32 as u8)
}

fn hex_digit_of(d: u8) -> (r: char)
    requires
        d < 16,
    ensures
        r == hex_digit(d),
{
    if d < 10 {
        (48 + d) as char
    } else {
        (55 + d) as char
    }
}

/// Percent-encodes one path segment, so an id or token can never escape its place in the URL.
pub fn seg(s: &str) -> (r: String)
    ensures
        r@ == percent_encode(s.spec_bytes()),
{
    let bytes = s.as_bytes();
    let mut out = String::new();
    let mut i: usize = 0;
    while i < bytes.len()
        invariant
            i <= bytes@.len(),
            bytes@ == s.spec_bytes(),
            out@ == percent_encode(bytes@.take(i as int)),
        decreases bytes.len() - i,
    {
        let b = bytes[i];
        assert(bytes@.take(i + 1).drop_last() == bytes@.take(i as int));
        if (65 <= b && b <= 90) || (97 <= b && b <= 122) || (48 <= b && b <= 57) || b == 45 || b
            == 95 || b == 46 || b == 126 {
            push_char(&mut out, b as char);
        } else {
            push_char(&mut out, '%');
            push_char(&mut out, hex_digit_of(b / 16));
            push_char(&mut out, hex_digit_of(b % 16));
        }
        i = i + 1;
    }
    assert(bytes@.take(bytes@.len() as int) == bytes@);
    out
}

proof fn lemma_encode_concat(a: Seq<u8>, b: Seq<u8>)
    ensures
        percent_encode(a + b) == percent_encode(a) + percent_encode(b),
    decreases b.len(),
{
    if b.len() == 0 {
        assert(a + b == a);
    } else {
        lemma_encode_concat(a, b.drop_last());
        assert((a + b).drop_last() == a + b.drop_last());
        assert((a + b).last() == b.last());
    }
}

proof fn lemma_encode_byte_decodes(b: u8, rest: Seq<char>)
    ensures
        percent_decode(encode_byte(b) + rest) == seq![b] + percent_decode(rest),
{
    let e = encode_byte(b);
    let cs = e + rest;
    if unreserved(b) {
        assert(cs[0] == b as char);
        assert(cs[0] != '%');
        assert(cs.drop_first() == rest);
        assert((b as char) as u8 == b);
    } else {
        assert(cs[0] == '%');
        assert(cs.skip(3) == rest);
        assert(cs[1] == hex_digit(b / 16));
        assert(cs[2] == hex_digit(b % 16));
        assert(hex_value(hex_digit(b / 16)) == b / 16);
        assert(hex_value(hex_digit(b % 16)) == b % 16);
    }
}

/// Decoding an encoded segment gives back the bytes it was made from.
pub proof fn lemma_seg_round_trip(bs: Seq<u8>)
    ensures
        percent_decode(percent_encode(bs)) == bs,
    decreases bs.len(),
{
    if bs.len() > 0 {
        let head = bs.take(1);
        let tail = bs.skip(1);
        assert(bs == head + tail);
        lemma_encode_concat(head, tail);
        assert(head.drop_last().len() == 0);
        assert(percent_encode(head) == percent_encode(head.drop_last()) + encode_byte(bs[0]));
        assert(percent_encode(head) == encode_byte(bs[0]));
        lemma_encode_byte_decodes(bs[0], percent_encode(tail));
        lemma_seg_round_trip(tail);
        assert(seq![bs[0]] + tail == bs);
    }
}

/// Every character of an encoded segment is an unreserved character or `%`: no `/`, `?`, `#`,
/// `&`, space or other delimiter can appear in it.
pub proof fn lemma_seg_chars(bs: Seq<u8>)
    ensures
        forall|i: int| 0 <= i < percent_encode(bs).len() ==> segment_char(#[trigger] percent_encode(bs)[i]),
    decreases bs.len(),
{
    if bs.len() > 0 {
        lemma_seg_chars(bs.drop_last());
        let b = bs.last();
        let e = encode_byte(b);
        assert forall|i: int| 0 <= i < e.len() implies segment_char(#[trigger] e[i]) by {
            if unreserved(b) {
                assert(e[i] == b as char);
                assert((b as char) as u32 == b as u32);
            } else if i > 0 {
                let d: u8 = if i == 1 { b / 16 } else { b % 16 };
                assert(e[i] == hex_digit(d));
                assert(d < 16);
            }
        }
        let p = percent_encode(bs.drop_last());
        assert forall|i: int| 0 <= i < percent_encode(bs).len() implies segment_char(#[trigger] percent_encode(bs)[i]) by {
            if i < p.len() {
                assert(percent_encode(bs)[i] == p[i]);
            } else {
                assert(percent_encode(bs)[i] == e[i - p.len()]);
            }
        }
    }
}

// ---------------------------------------------------------------------------------------------
// Requests
// ---------------------------------------------------------------------------------------------

/// HTTP method of a request.
#[derive(Clone, Copy, Debug, PartialEq, Eq, Structural)]
pub enum Method {
    Get,
    Post,
}

/// A request to send: the URL, the `Authorization` header's value, and for a POST its JSON
/// body. Every request also carries `Accept: application/json`, and one with a body
/// `Content-Type: application/json`.
#[derive(Debug)]
pub struct Request {
    pub method: Method,
    pub url: String,
    pub authorization: String,
    pub body: Option<Json>,
}

/// An API client: where the API lives and the token it authenticates with.
#[derive(Debug)]
pub struct Client {
    pub base: String,
    pub api_key: String,
}

/// The API root: the configured one when it is not blank, else the default, and in either case
/// ending in `/`.
pub open spec fn spec_base(configured: Option<Seq<char>>) -> Seq<char> {
    let b = match configured {
        Some(s) => if blank(s) { default_base() } else { s },
        None => default_base(),
    };
    if b.len() > 0 && b.last() == '/' {
        b
    } else {
        b.push('/')
    }
}

fn ends_with_slash(s: &str) -> (r: bool)
    ensures
        r == (s@.len() > 0 && s@.last() == '/'),
{
    let cs = crate::text::chars_of(s);
    cs.len() > 0 && cs[cs.len() - 1] == '/'
}

impl Client {
    /// A client for `api_key` (trimmed). `configured_base` is the `APIFY_API_URL` setting.
    pub fn new(api_key: &str, configured_base: Option<String>) -> (r: Client)
        ensures
            r.api_key@ == trimmed(api_key@),
            r.base@ == spec_base(opt_text(configured_base)),
    {
        let mut base = match configured_base {
            Some(s) => {
                if is_blank(s.as_str()) {
                    String::from_str("https://api.apify.com/v2/")
                } else {
                    s
                }
            },
            None => String::from_str("https://api.apify.com/v2/"),
        };
        proof {
            reveal_strlit("https://api.apify.com/v2/");
        }
        if !ends_with_slash(base.as_str()) {
            push_char(&mut base, '/');
        }
        Client { base, api_key: trim(api_key) }
    }

    /// A GET of `path` under the API root.
    pub fn get(&self, path: &str) -> (r: Request)
        ensures
            r.method == Method::Get,
            r.url@ == self.base@ + path@,
            r.authorization@ == "Bearer "@ + self.api_key@,
            r.body is None,
    {
        self.request(Method::Get, path, None)
    }

    /// A POST of `body` to `path` under the API root.
    pub fn post(&self, path: &str, body: Json) -> (r: Request)
        ensures
            r.method == Method::Post,
            r.url@ == self.base@ + path@,
            r.authorization@ == "Bearer "@ + self.api_key@,
            r.body == Some(body),
    {
        self.request(Method::Post, path, Some(body))
    }

    /// `GET users/me`: who the token belongs to.
    pub fn me(&self) -> (r: Request)
        ensures
            r.method == Method::Get,
            r.url@ == self.base@ + "users/me"@,
            r.authorization@ == "Bearer "@ + self.api_key@,
            r.body is None,
    {
        self.get("users/me")
    }

    /// Runs the tweet scraper for a search; the token also travels, encoded, in the query.
    pub fn search(&self, input: Json) -> (r: Request)
        ensures
            r.method == Method::Post,
            r.url@ == self.base@ + actor_path() + percent_encode(encode_utf8(self.api_key@)),
            r.authorization@ == "Bearer "@ + self.api_key@,
            r.body == Some(input),
    {
        let endpoint = self.actor_endpoint();
        self.post(endpoint.as_str(), input)
    }

    /// Runs the tweet scraper for a profile, tweet or thread.
    pub fn scrape(&self, input: Json) -> (r: Request)
        ensures
            r.method == Method::Post,
            r.url@ == self.base@ + actor_path() + percent_encode(encode_utf8(self.api_key@)),
            r.authorization@ == "Bearer "@ + self.api_key@,
            r.body == Some(input),
    {
        let endpoint = self.actor_endpoint();
        self.post(endpoint.as_str(), input)
    }

    fn actor_endpoint(&self) -> (r: String)
        ensures
            r@ == actor_path() + percent_encode(encode_utf8(self.api_key@)),
    {
        let mut e = String::from_str("acts/apidojo~tweet-scraper/run-sync-get-dataset-items?token=");
        proof {
            reveal_strlit("acts/apidojo~tweet-scraper/run-sync-get-dataset-items?token=");
        }
        let key = seg(self.api_key.as_str());
        push_str(&mut e, key.as_str());
        e
    }

    fn request(&self, method: Method, path: &str, body: Option<Json>) -> (r: Request)
        ensures
            r.method == method,
            r.url@ == self.base@ + path@,
            r.authorization@ == "Bearer "@ + self.api_key@,
            r.body == body,
    {
        let mut url = String::from_str(self.base.as_str());
        push_str(&mut url, path);
        let mut authorization = String::from_str("Bearer ");
        push_str(&mut authorization, self.api_key.as_str());
        Request { method, url, authorization, body }
    }
}

// ---------------------------------------------------------------------------------------------
// Responses
// ---------------------------------------------------------------------------------------------

/// Text of the member `field` of the `error` object of a parsed body; empty when absent.
pub open spec fn field_of(parsed: Option<Json>, field: Seq<char>) -> Seq<char> {
    match parsed {
        Some(v) => match get(v, "error"@) {
            Some(e) => match as_text(get(e, field)) {
                Some(t) => t,
                None => Seq::empty(),
            },
            None => Seq::empty(),
        },
        None => Seq::empty(),
    }
}

/// The Apify error type that marks an unknown user or an invalid token.
pub open spec fn token_not_found() -> Seq<char> {
    "user-or-token-not-found"@
}

/// The code an HTTP failure status maps to.
pub open spec fn status_code_for(status: u16, api_type: Seq<char>) -> ErrorCode {
    if status == 401 || status == 403 {
        ErrorCode::AuthRequired
    } else if status == 404 {
        if api_type == token_not_found() {
            ErrorCode::AuthRequired
        } else {
            ErrorCode::NotFound
        }
    } else if status == 429 {
        ErrorCode::RateLimited
    } else if status == 400 || status == 422 {
        ErrorCode::InvalidInput
    } else if status >= 500 {
        ErrorCode::Network
    } else {
        ErrorCode::Error
    }
}

/// The message of an HTTP failure.
pub open spec fn status_message(status: u16, api_type: Seq<char>, api_msg: Seq<char>) -> Seq<char> {
    if status == 401 {
        if api_msg.len() > 0 {
            "The Apify API token was rejected: "@ + api_msg
        } else {
            "The Apify API token was rejected or expired."@
        }
    } else if status == 403 {
        if api_msg.len() > 0 {
            "Apify permission denied: "@ + api_msg
        } else {
            "Permission denied or Apify usage limit reached."@
        }
    } else if status == 404 {
        if api_type == token_not_found() {
            "User was not found or authentication token is not valid."@
        } else if api_msg.len() > 0 {
            "The resource was not found: "@ + api_msg
        } else {
            "The requested resource was not found."@
        }
    } else if status == 429 {
        "Rate limited by the Apify API."@
    } else if status == 400 || status == 422 {
        if api_msg.len() > 0 {
            "The Apify API refused the request: "@ + api_msg
        } else {
            "The Apify API refused the request."@
        }
    } else if status >= 500 {
        "The Apify API returned a server error."@
    } else {
        "The request failed."@
    }
}

/// The remediation of an HTTP failure, where there is one.
pub open spec fn status_fix(status: u16, api_type: Seq<char>) -> Option<Seq<char>> {
    if status == 401 || (status == 404 && api_type == token_not_found()) {
        Some("Run 'twitter login <name> --force' or verify your APIFY_TOKEN."@)
    } else if status == 403 {
        Some("Check your Apify account permissions and credits at https://console.apify.com"@)
    } else if status == 429 {
        Some("Back off before retrying."@)
    } else if status >= 500 {
        Some("Retry; if it persists Apify is having trouble."@)
    } else {
        None
    }
}

/// `HTTP <status>`, followed by `: <body>` when the body is not empty.
pub open spec fn status_detail(status: u16, body: Seq<char>) -> Seq<char> {
    "HTTP "@ + decimal(status as nat) + if body.len() == 0 {
        Seq::<char>::empty()
    } else {
        ": "@ + body
    }
}

/// `e` is the error that status `status` maps to, for a body `body` that parsed as `parsed`.
pub open spec fn is_status_error_of(e: Error, status: u16, body: Seq<char>, parsed: Option<Json>) -> bool {
    let t = field_of(parsed, "type"@);
    let m = field_of(parsed, "message"@);
    &&& e.code == status_code_for(status, t)
    &&& e.message@ == status_message(status, t, m)
    &&& opt_text(e.remediation) == status_fix(status, t)
    &&& opt_text(e.detail) == Some(status_detail(status, body))
}

/// `e` is the error that status `status` with body `body` maps to.
pub open spec fn is_status_error(e: Error, status: u16, body: Seq<char>) -> bool {
    is_status_error_of(e, status, body, json_parse(encode_utf8(body)))
}

fn field_text(parsed: &Option<Json>, field: &str) -> (r: String)
    ensures
        r@ == field_of(*parsed, field@),
{
    proof {
        reveal_strlit("error");
    }
    match parsed {
        Some(v) => match get_member(v, "error") {
            Some(e) => match text_of(get_member(e, field)) {
                Some(t) => t.clone(),
                None => String::new(),
            },
            None => String::new(),
        },
        None => String::new(),
    }
}

/// Maps an HTTP failure status and its body to an error with a stable code. The detail is
/// always `HTTP <status>` and the body.
pub fn status_error(status: u16, body: &str) -> (e: Error)
    ensures
        is_status_error(e, status, body@),
{
    let parsed = parse(body.as_bytes());
    status_error_of(status, body, &parsed)
}

/// The error for a failure status, given what the body parsed as (`None`: not JSON).
pub fn status_error_of(status: u16, body: &str, parsed: &Option<Json>) -> (e: Error)
    ensures
        is_status_error_of(e, status, body@, *parsed),
{
    let mut detail = String::from_str("HTTP ");
    let digits = decimal_of(status as u64);
    push_str(&mut detail, digits.as_str());
    proof {
        reveal_strlit("HTTP ");
        reveal_strlit(": ");
    }
    if !body.is_empty() {
        push_str(&mut detail, ": ");
        push_str(&mut detail, body);
        assert(detail@ == "HTTP "@ + decimal(status as nat) + (": "@ + body@));
    } else {
        assert(detail@ == "HTTP "@ + decimal(status as nat) + Seq::<char>::empty());
    }
    assert(detail@ == status_detail(status, body@));
    let api_type = field_text(parsed, "type");
    let api_msg = field_text(parsed, "message");
    let not_found = crate::text::str_eq(api_type.as_str(), "user-or-token-not-found");
    let login_fix = "Run 'twitter login <name> --force' or verify your APIFY_TOKEN.";
    let has_msg = !api_msg.as_str().is_empty();
    let e = if status == 401 {
        let e = if has_msg {
            Error::new(
                ErrorCode::AuthRequired,
                crate::text::cat("The Apify API token was rejected: ", api_msg.as_str()),
            )
        } else {
            error_with(ErrorCode::AuthRequired, "The Apify API token was rejected or expired.")
        };
        e.fix(String::from_str(login_fix))
    } else if status == 403 {
        let e = if has_msg {
            Error::new(
                ErrorCode::AuthRequired,
                crate::text::cat("Apify permission denied: ", api_msg.as_str()),
            )
        } else {
            error_with(ErrorCode::AuthRequired, "Permission denied or Apify usage limit reached.")
        };
        e.fix(
            String::from_str(
                "Check your Apify account permissions and credits at https://console.apify.com",
            ),
        )
    } else if status == 404 {
        if not_found {
            error_with(
                ErrorCode::AuthRequired,
                "User was not found or authentication token is not valid.",
            ).fix(String::from_str(login_fix))
        } else if has_msg {
            Error::new(
                ErrorCode::NotFound,
                crate::text::cat("The resource was not found: ", api_msg.as_str()),
            )
        } else {
            error_with(ErrorCode::NotFound, "The requested resource was not found.")
        }
    } else if status == 429 {
        error_with(ErrorCode::RateLimited, "Rate limited by the Apify API.").fix(
            String::from_str("Back off before retrying."),
        )
    } else if status == 400 || status == 422 {
        if has_msg {
            Error::new(
                ErrorCode::InvalidInput,
                crate::text::cat("The Apify API refused the request: ", api_msg.as_str()),
            )
        } else {
            error_with(ErrorCode::InvalidInput, "The Apify API refused the request.")
        }
    } else if status >= 500 {
        error_with(ErrorCode::Network, "The Apify API returned a server error.").fix(
            String::from_str("Retry; if it persists Apify is having trouble."),
        )
    } else {
        error_with(ErrorCode::Error, "The request failed.")
    };
    e.detail(detail)
}

/// The bytes `u8::is_ascii_whitespace` accepts: space, tab, line feed, form feed, carriage return.
pub open spec fn ascii_ws_byte(b: u8) -> bool {
    b == 32 || b == 9 || b == 10 || b == 12 || b == 13
}

fn is_ascii_ws(b: u8) -> (r: bool)
    ensures
        r == ascii_ws_byte(b),
{
    b == 32 || b == 9 || b == 10 || b == 12 || b == 13
}

/// What `String::from_utf8_lossy` makes of the bytes.
pub uninterp spec fn utf8_lossy(bytes: Seq<u8>) -> Seq<char>;

/// `String::from_utf8_lossy` from std: valid UTF-8 decodes as itself; each invalid sequence
/// becomes U+FFFD, by rules left to the name `utf8_lossy`.
#[verifier::external_body]
pub(crate) fn lossy_text(bytes: &[u8]) -> (r: String)
    ensures
        r@ == utf8_lossy(bytes@),
        valid_utf8(bytes@) ==> r@ == decode_utf8(bytes@),
{
    String::from_utf8_lossy(bytes).into_owned()
}

/// What a response with `status` and `body` reads as.
pub open spec fn read_ok(status: u16, body: Seq<u8>, r: Result<Json, Error>) -> bool {
    if !(200 <= status < 300) {
        r matches Err(e) && is_status_error(e, status, trimmed(utf8_lossy(body)))
    } else if forall|i: int| 0 <= i < body.len() ==> ascii_ws_byte(#[trigger] body[i]) {
        r matches Ok(Json::Array(items)) && items@.len() == 0
    } else {
        match json_parse(body) {
            Some(doc) => r == Ok::<Json, Error>(doc),
            None => r matches Ok(Json::Str(s)) && s@ == utf8_lossy(body),
        }
    }
}

/// Reads a response: a failure status becomes its error; an empty or whitespace-only body
/// reads as an empty array; a body that is not JSON reads as a JSON string of its text.
pub fn read(status: u16, body: &[u8]) -> (r: Result<Json, Error>)
    ensures
        read_ok(status, body@, r),
{
    if !(200 <= status && status < 300) {
        let text = lossy_text(body);
        let trimmed_text = trim(text.as_str());
        return Err(status_error(status, trimmed_text.as_str()));
    }
    let mut i: usize = 0;
    while i < body.len() && is_ascii_ws(body[i])
        invariant
            i <= body@.len(),
            forall|j: int| 0 <= j < i ==> ascii_ws_byte(#[trigger] body@[j]),
        decreases body.len() - i,
    {
        i = i + 1;
    }
    if i == body.len() {
        return Ok(Json::Array(Vec::new()));
    }
    assert(!ascii_ws_byte(body@[i as int]));
    match parse(body) {
        Some(doc) => Ok(doc),
        None => Ok(Json::Str(lossy_text(body))),
    }
}

/// The error for a request that never got a response: a timeout, or anything else that kept
/// the API out of reach (described by `cause`).
pub fn transport_error(timed_out: bool, cause: String) -> (e: Error)
    ensures
        e.code == ErrorCode::Network,
        e.message@ == if timed_out {
            "The request timed out."@
        } else {
            "Could not reach the Apify API."@
        },
        opt_text(e.detail) == if timed_out {
            None
        } else {
            Some(cause@)
        },
        opt_text(e.remediation) == Some("Retry once, then stop."@),
{
    if timed_out {
        error_with(ErrorCode::Network, "The request timed out.").fix(
            String::from_str("Retry once, then stop."),
        )
    } else {
        error_with(ErrorCode::Network, "Could not reach the Apify API.").detail(cause).fix(
            String::from_str("Retry once, then stop."),
        )
    }
}

} // verus!
