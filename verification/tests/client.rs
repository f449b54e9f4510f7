use twitter_cli::client::{read, seg, status_error, status_error_of, transport_error, Client, Method};
use twitter_cli::error::ErrorCode;
use twitter_cli::json::Json;

#[test]
fn seg_escapes_reserved() {
    assert_eq!(seg("token_123"), "token_123");
    assert_eq!(seg("A B/C"), "A%20B%2FC");
}

#[test]
fn status_maps_to_codes() {
    assert_eq!(status_error(401, "").code, ErrorCode::AuthRequired);
    assert_eq!(status_error(404, "").code, ErrorCode::NotFound);
    assert_eq!(status_error(429, "").code, ErrorCode::RateLimited);
    assert_eq!(status_error(422, "").code, ErrorCode::InvalidInput);
    assert_eq!(status_error(503, "").code, ErrorCode::Network);
}

#[test]
fn seg_encodes_utf8_bytes_and_keeps_unreserved() {
    assert_eq!(seg("a-b_c.d~e"), "a-b_c.d~e");
    assert_eq!(seg("é"), "%C3%A9");
    assert_eq!(seg("?&="), "%3F%26%3D");
    assert_eq!(seg(""), "");
}

#[test]
fn status_error_messages_and_detail() {
    let e = status_error(401, "");
    assert_eq!(e.message, "The Apify API token was rejected or expired.");
    assert_eq!(e.detail.as_deref(), Some("HTTP 401"));
    assert_eq!(e.remediation.as_deref(), Some("Run 'twitter login <name> --force' or verify your APIFY_TOKEN."));

    let e = status_error(403, "");
    assert_eq!(e.code, ErrorCode::AuthRequired);
    assert_eq!(e.message, "Permission denied or Apify usage limit reached.");

    let e = status_error(400, "");
    assert_eq!(e.code, ErrorCode::InvalidInput);
    assert_eq!(e.message, "The Apify API refused the request.");
    assert_eq!(e.remediation, None);

    let e = status_error(302, "moved");
    assert_eq!(e.code, ErrorCode::Error);
    assert_eq!(e.message, "The request failed.");
    assert_eq!(e.detail.as_deref(), Some("HTTP 302: moved"));
}

#[test]
fn status_error_reads_the_apify_error_body() {
    let body = r#"{"error":{"type":"user-or-token-not-found","message":"User was not found or authentication token is not valid"}}"#;
    let e = status_error(404, body);
    assert_eq!(e.code, ErrorCode::AuthRequired);
    assert_eq!(e.message, "User was not found or authentication token is not valid.");
    assert_eq!(e.detail.as_deref(), Some(format!("HTTP 404: {body}").as_str()));

    let e = status_error(404, r#"{"error":{"type":"record-not-found","message":"Actor missing"}}"#);
    assert_eq!(e.code, ErrorCode::NotFound);
    assert_eq!(e.message, "The resource was not found: Actor missing");

    let e = status_error(401, r#"{"error":{"message":"bad token"}}"#);
    assert_eq!(e.message, "The Apify API token was rejected: bad token");

    let e = status_error(422, r#"{"error":{"message":"maxItems too large"}}"#);
    assert_eq!(e.message, "The Apify API refused the request: maxItems too large");
}

#[test]
fn read_empty_body_is_empty_array() {
    match read(200, b"  \n\t ") {
        Ok(Json::Array(items)) => assert!(items.is_empty()),
        other => panic!("unexpected {other:?}"),
    }
    match read(201, b"") {
        Ok(Json::Array(items)) => assert!(items.is_empty()),
        other => panic!("unexpected {other:?}"),
    }
}

#[test]
fn read_parses_json_documents() {
    match read(200, br#"[{"id":"tweet_1","author":{"userName":"spacecorps"}}]"#) {
        Ok(Json::Array(items)) => {
            assert_eq!(items.len(), 1);
            match &items[0] {
                Json::Object(ms) => {
                    assert_eq!(ms[0].0, "id");
                    assert!(matches!(&ms[0].1, Json::Str(s) if s == "tweet_1"));
                    assert_eq!(ms[1].0, "author");
                }
                other => panic!("unexpected {other:?}"),
            }
        }
        other => panic!("unexpected {other:?}"),
    }
    match read(200, b"42") {
        Ok(Json::Number(n)) => assert_eq!(n, "42"),
        other => panic!("unexpected {other:?}"),
    }
}

#[test]
fn read_keeps_non_json_as_text() {
    match read(200, b"not json at all") {
        Ok(Json::Str(s)) => assert_eq!(s, "not json at all"),
        other => panic!("unexpected {other:?}"),
    }
    match read(200, b"ok \xff") {
        Ok(Json::Str(s)) => assert_eq!(s, "ok \u{FFFD}"),
        other => panic!("unexpected {other:?}"),
    }
}

#[test]
fn read_failure_status_is_an_error() {
    match read(429, b"  slow down \n") {
        Err(e) => {
            assert_eq!(e.code, ErrorCode::RateLimited);
            assert_eq!(e.detail.as_deref(), Some("HTTP 429: slow down"));
        }
        other => panic!("unexpected {other:?}"),
    }
}

#[test]
fn transport_errors() {
    let e = transport_error(true, "ignored".to_string());
    assert_eq!(e.code, ErrorCode::Network);
    assert_eq!(e.message, "The request timed out.");
    assert_eq!(e.detail, None);
    assert_eq!(e.remediation.as_deref(), Some("Retry once, then stop."));
    let e = transport_error(false, "connection refused".to_string());
    assert_eq!(e.message, "Could not reach the Apify API.");
    assert_eq!(e.detail.as_deref(), Some("connection refused"));
}

#[test]
fn client_requests() {
    let c = Client::new("  token_123 ", None);
    assert_eq!(c.base, "https://api.apify.com/v2/");
    assert_eq!(c.api_key, "token_123");
    let r = c.me();
    assert_eq!(r.method, Method::Get);
    assert_eq!(r.url, "https://api.apify.com/v2/users/me");
    assert_eq!(r.authorization, "Bearer token_123");
    assert!(r.body.is_none());

    let c = Client::new("a b", Some("http://127.0.0.1:9000/v2".to_string()));
    assert_eq!(c.base, "http://127.0.0.1:9000/v2/");
    let r = c.search(Json::Null);
    assert_eq!(r.method, Method::Post);
    assert_eq!(r.url, "http://127.0.0.1:9000/v2/acts/apidojo~tweet-scraper/run-sync-get-dataset-items?token=a%20b");
    assert!(matches!(r.body, Some(Json::Null)));
    let r = c.scrape(Json::Bool(true));
    assert_eq!(r.url, "http://127.0.0.1:9000/v2/acts/apidojo~tweet-scraper/run-sync-get-dataset-items?token=a%20b");

    let c = Client::new("k", Some("   ".to_string()));
    assert_eq!(c.base, "https://api.apify.com/v2/");
}

#[test]
fn status_error_from_a_parsed_body() {
    let inner = Json::Object(vec![
        ("type".to_string(), Json::Str("user-or-token-not-found".to_string())),
        ("message".to_string(), Json::Str("gone".to_string())),
    ]);
    let parsed = Some(Json::Object(vec![("error".to_string(), inner)]));
    let e = status_error_of(404, "raw body", &parsed);
    assert_eq!(e.code, ErrorCode::AuthRequired);
    assert_eq!(e.message, "User was not found or authentication token is not valid.");
    assert_eq!(e.detail.as_deref(), Some("HTTP 404: raw body"));
    let e = status_error_of(403, "", &Some(Json::Object(vec![(
        "error".to_string(),
        Json::Object(vec![("message".to_string(), Json::Str("no credits".to_string()))]),
    )])));
    assert_eq!(e.message, "Apify permission denied: no credits");
    let e = status_error_of(500, "", &None);
    assert_eq!(e.code, ErrorCode::Network);
    assert_eq!(e.remediation.as_deref(), Some("Retry; if it persists Apify is having trouble."));
    let e = status_error_of(404, "", &Some(Json::Array(vec![])));
    assert_eq!(e.code, ErrorCode::NotFound);
    assert_eq!(e.message, "The requested resource was not found.");
}
