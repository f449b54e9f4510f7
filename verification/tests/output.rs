use twitter_cli::error::{Error, ErrorCode};
use twitter_cli::json::Json;
use twitter_cli::output::{error_envelope, render, yaml};
use twitter_cli::readme::{manual, manual_data, rules, Manual, API_VERSION};

fn err(code: ErrorCode, detail: Option<&str>, remediation: Option<&str>) -> Error {
    Error {
        code,
        message: "Something failed.".to_string(),
        detail: detail.map(|s| s.to_string()),
        remediation: remediation.map(|s| s.to_string()),
    }
}

fn names(j: &Json) -> Vec<String> {
    match j {
        Json::Object(ms) => ms.iter().map(|(k, _)| k.clone()).collect(),
        other => panic!("{other:?}"),
    }
}

#[test]
fn envelope_carries_code_and_exit_status() {
    let (j, code) = error_envelope(&err(ErrorCode::AuthRequired, Some("HTTP 401"), Some("twitter login <name>")));
    assert_eq!(code, 3);
    assert_eq!(names(&j), vec!["error", "code", "detail", "remediation"]);
    let (j, code) = error_envelope(&err(ErrorCode::NoAccount, Some("  "), None));
    assert_eq!(code, 7);
    assert_eq!(names(&j), vec!["error", "code"]);
    match &j {
        Json::Object(ms) => assert!(matches!(&ms[1].1, Json::Str(s) if s == "no_account")),
        other => panic!("{other:?}"),
    }
    let codes = [
        (ErrorCode::Error, 1, "error"),
        (ErrorCode::Network, 2, "network"),
        (ErrorCode::NotFound, 4, "not_found"),
        (ErrorCode::RateLimited, 5, "rate_limited"),
        (ErrorCode::InvalidInput, 6, "invalid_input"),
    ];
    for (c, n, name) in codes {
        assert_eq!(c.exit_code(), n);
        assert_eq!(c.name(), name);
        assert_eq!(error_envelope(&err(c, None, None)).1, n);
    }
}

#[test]
fn rendering_json_and_yaml() {
    let doc = Json::Object(vec![
        ("b".to_string(), Json::Str("x".to_string())),
        ("a".to_string(), Json::Number("1".to_string())),
    ]);
    assert_eq!(render(&doc, true), "{\n  \"b\": \"x\",\n  \"a\": 1\n}");
    assert_eq!(render(&doc, false), "b: x\na: 1");
    assert_eq!(yaml(&doc), "b: x\na: 1");
    assert_eq!(render(&Json::Array(vec![]), true), "[]");
    assert_eq!(render(&Json::Array(vec![]), false), "[]");
}

#[test]
fn manual_as_data() {
    let m = manual_data();
    assert_eq!(names(&m), vec!["tool", "apiVersion", "rules", "exitCodes"]);
    match &m {
        Json::Object(ms) => {
            assert!(matches!(&ms[0].1, Json::Str(s) if s == "twitter"));
            assert!(matches!(&ms[1].1, Json::Str(s) if s == API_VERSION));
            assert!(matches!(&ms[2].1, Json::Array(items) if items.len() == 6));
            match &ms[3].1 {
                Json::Object(codes) => {
                    assert_eq!(codes.len(), 8);
                    assert_eq!(codes[0].0, "0");
                    assert!(matches!(&codes[0].1, Json::Str(s) if s == "ok"));
                    assert!(
                        matches!(&codes[3].1, Json::Str(s) if s == "auth_required - stop, surface the remediation to a human")
                    );
                }
                other => panic!("{other:?}"),
            }
        }
        other => panic!("{other:?}"),
    }
    assert_eq!(rules().len(), 6);
}

#[test]
fn manual_as_text_or_data() {
    match manual(false) {
        Manual::Text(t) => {
            assert!(t.starts_with("# twitter - agent operating manual\n"));
            assert!(t.contains("## Error Codes & Envelopes"));
        }
        other => panic!("{other:?}"),
    }
    match manual(true) {
        Manual::Data(Json::Object(ms)) => assert_eq!(ms[0].0, "tool"),
        other => panic!("{other:?}"),
    }
}
