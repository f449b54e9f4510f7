use twitter_cli::config::{utc_of_reading, format_utc, invalid_config, lock_step, lock_timeout, next_delay, LockNext, LockTry, now_utc, AccountConfig, Config};
use twitter_cli::error::ErrorCode;

fn account(identity: &str, plan: &str, added_at: &str) -> AccountConfig {
    AccountConfig { identity: identity.to_string(), plan: plan.to_string(), added_at: added_at.to_string() }
}

/// Builds a configuration the way the program does after serde_norway has read the file.
fn from_yaml(text: &str) -> Config {
    let doc: serde_json::Value = serde_norway::from_str(text).unwrap();
    let mut c = Config::new();
    if let Some(v) = doc.get("version").and_then(|v| v.as_u64()) {
        c.version = v as u32;
    }
    if let Some(accounts) = doc.get("accounts").and_then(|a| a.as_object()) {
        for (name, a) in accounts {
            let field = |k: &str| a.get(k).and_then(|v| v.as_str()).unwrap_or_default().to_string();
            c.insert(name.clone(), AccountConfig { identity: field("identity"), plan: field("plan"), added_at: field("addedAt") });
        }
    }
    c
}

#[test]
fn formats_utc() {
    assert_eq!(format_utc(0), "1970-01-01T00:00:00Z");
    assert_eq!(format_utc(1_790_000_000), "2026-09-21T14:13:20Z");
    assert_eq!(format_utc(951_782_400), "2000-02-29T00:00:00Z");
}

#[test]
fn reads_config_layout() {
    let yaml = "version: 1\naccounts:\n  Work:\n    identity: user@example.com\n    plan: personal\n    addedAt: 2026-01-01T00:00:00Z\n";
    let c = from_yaml(yaml);
    let (name, acct) = c.find("work").unwrap();
    assert_eq!(name, "Work");
    assert_eq!(acct.identity, "user@example.com");
    assert_eq!(acct.plan, "personal");
}

#[test]
fn formats_utc_edges() {
    assert_eq!(format_utc(-1), "1969-12-31T23:59:59Z");
    assert_eq!(format_utc(86_399), "1970-01-01T23:59:59Z");
    assert_eq!(format_utc(951_868_800), "2000-03-01T00:00:00Z");
    assert_eq!(format_utc(4_107_542_400), "2100-03-01T00:00:00Z");
    assert_eq!(format_utc(-62_135_596_800), "0001-01-01T00:00:00Z");
    assert_eq!(format_utc(253_402_300_799), "9999-12-31T23:59:59Z");
}

#[test]
fn now_utc_has_the_recorded_form() {
    let t = now_utc();
    let b = t.as_bytes();
    assert_eq!(b.len(), 20);
    assert_eq!(b[4], b'-');
    assert_eq!(b[7], b'-');
    assert_eq!(b[10], b'T');
    assert_eq!(b[13], b':');
    assert_eq!(b[16], b':');
    assert_eq!(b[19], b'Z');
    assert!(t.as_str() > "2020-01-01T00:00:00Z");
}

#[test]
fn new_config_is_empty_version_one() {
    let c = Config::new();
    assert_eq!(c.version, 1);
    assert!(c.entries().is_empty());
    assert!(c.find("anything").is_none());
    let d = Config::default();
    assert_eq!(d.version, 1);
    assert!(d.entries().is_empty());
}

#[test]
fn find_is_ascii_case_insensitive_and_returns_the_stored_name() {
    let mut c = Config::new();
    c.insert("Work".to_string(), account("w@example.com", "team", "t1"));
    c.insert("home".to_string(), account("", "", "t2"));
    assert_eq!(c.find("WORK").unwrap().0, "Work");
    assert_eq!(c.find("Home").unwrap().0, "home");
    assert_eq!(c.find("Home").unwrap().1.added_at, "t2");
    assert!(c.find("wor").is_none());
    assert!(c.find("").is_none());
}

#[test]
fn insert_replaces_in_place_and_appends_new_names() {
    let mut c = Config::new();
    c.insert("b".to_string(), account("1", "", ""));
    c.insert("a".to_string(), account("2", "", ""));
    c.insert("b".to_string(), account("3", "", ""));
    let names: Vec<(String, String)> = c.entries().into_iter().map(|(n, a)| (n, a.identity)).collect();
    assert_eq!(names, vec![("b".to_string(), "3".to_string()), ("a".to_string(), "2".to_string())]);
}

#[test]
fn remove_keeps_the_order_of_the_rest() {
    let mut c = Config::new();
    for n in ["x", "y", "z"] {
        c.insert(n.to_string(), account(n, "", ""));
    }
    c.remove(&"y".to_string());
    let names: Vec<String> = c.entries().into_iter().map(|(n, _)| n).collect();
    assert_eq!(names, vec!["x", "z"]);
    c.remove(&"Y".to_string());
    assert_eq!(c.entries().len(), 2);
    c.remove(&"X".to_string());
    assert_eq!(c.entries().len(), 2);
}

#[test]
fn sorted_by_lowercase_name_stably() {
    let mut c = Config::new();
    c.insert("zeta".to_string(), account("", "", ""));
    c.insert("Beta".to_string(), account("", "", ""));
    c.insert("alpha".to_string(), account("", "", ""));
    c.insert("BETA".to_string(), account("second", "", ""));
    let names: Vec<String> = c.sorted().into_iter().map(|(n, _)| n).collect();
    assert_eq!(names, vec!["alpha", "Beta", "BETA", "zeta"]);
}

#[test]
fn config_file_and_lock_errors() {
    let e = invalid_config("/home/u/.config/twitter-cli/config.yaml", "bad indentation".to_string());
    assert_eq!(e.code, ErrorCode::Error);
    assert_eq!(e.message, "/home/u/.config/twitter-cli/config.yaml is not valid.");
    assert_eq!(e.detail.as_deref(), Some("bad indentation"));
    assert_eq!(
        e.remediation.as_deref(),
        Some("Fix or delete /home/u/.config/twitter-cli/config.yaml, then run: twitter accounts add <name>")
    );
    let e = lock_timeout("/tmp/.lock");
    assert_eq!(e.message, "Timed out waiting for the lock at /tmp/.lock. Another twitter process may be stuck.");
    assert_eq!(e.code, ErrorCode::Error);
}

#[test]
fn lock_backoff_doubles_up_to_400ms() {
    assert_eq!(next_delay(25), 50);
    assert_eq!(next_delay(100), 200);
    assert_eq!(next_delay(200), 400);
    assert_eq!(next_delay(300), 400);
    assert_eq!(next_delay(400), 400);
}

#[test]
fn clock_readings_render_as_utc() {
    assert_eq!(utc_of_reading(None), "1970-01-01T00:00:00Z");
    assert_eq!(utc_of_reading(Some(0)), "1970-01-01T00:00:00Z");
    assert_eq!(utc_of_reading(Some(1_790_000_000)), "2026-09-21T14:13:20Z");
    assert_eq!(utc_of_reading(Some(u64::MAX)), "1969-12-31T23:59:59Z");
    assert_eq!(utc_of_reading(Some(9_223_372_036_854_775_808)), format_utc(i64::MIN));
}

#[test]
fn lock_retries_until_the_deadline() {
    assert!(matches!(lock_step(LockTry::Acquired, false, 25, "/c/.lock"), LockNext::Hold));
    assert!(matches!(lock_step(LockTry::Busy, true, 25, "/c/.lock"), LockNext::Wait { wait_ms: 25, next_ms: 50 }));
    assert!(matches!(lock_step(LockTry::Busy, true, 300, "/c/.lock"), LockNext::Wait { wait_ms: 300, next_ms: 400 }));
    match lock_step(LockTry::Busy, false, 400, "/c/.lock") {
        LockNext::Fail(e) => {
            assert_eq!(e.message, "Timed out waiting for the lock at /c/.lock. Another twitter process may be stuck.")
        }
        other => panic!("{other:?}"),
    }
    match lock_step(LockTry::Failed("permission denied".to_string()), true, 25, "/c/.lock") {
        LockNext::Fail(e) => {
            assert_eq!(e.code, ErrorCode::Error);
            assert_eq!(e.message, "permission denied");
        }
        other => panic!("{other:?}"),
    }
}
