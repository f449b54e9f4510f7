use twitter_cli::commands::removing::{remove_accepts, remove_step, RemoveAction, RemoveEvent, RemoveState};
use twitter_cli::config::{AccountConfig, Config};
use twitter_cli::error::ErrorCode;
use twitter_cli::json::Json;
use twitter_cli::secrets::Store;

fn config() -> Config {
    let mut c = Config::new();
    c.insert(
        "Work".to_string(),
        AccountConfig { identity: "devuser".to_string(), plan: String::new(), added_at: String::new() },
    );
    c
}

fn step(requested: &str, yes: bool, s: RemoveState, e: RemoveEvent) -> (RemoveState, RemoveAction) {
    assert!(remove_accepts(&s, &e));
    remove_step(requested, yes, s, e)
}

fn loaded(requested: &str, yes: bool) -> (RemoveState, RemoveAction) {
    let (s, a) = step(requested, yes, RemoveState::Start, RemoveEvent::Begin);
    assert!(matches!(a, RemoveAction::Load));
    step(requested, yes, s, RemoveEvent::Loaded(Store::Plaintext, config()))
}

#[test]
fn remove_with_yes_deletes_without_asking() {
    let (s, a) = loaded("work", true);
    assert!(matches!(&a, RemoveAction::Delete { store: Store::Plaintext, name } if name == "Work"));
    let (s, a) = step("work", true, s, RemoveEvent::Deleted);
    assert!(matches!(s, RemoveState::Done));
    match a {
        RemoveAction::Finish(Json::Object(ms)) => {
            assert_eq!(ms[0].0, "status");
            assert!(matches!(&ms[1].1, Json::Str(n) if n == "Work"));
            assert!(matches!(&ms[2].1, Json::Str(i) if i == "devuser"));
        }
        other => panic!("{other:?}"),
    }
}

#[test]
fn remove_asks_and_honours_the_answer() {
    let (s, a) = loaded("WORK", false);
    assert!(matches!(&a, RemoveAction::Confirm { question } if question == "Remove account Work (devuser)? [y/N] "));
    let (_, a) = step("WORK", false, s, RemoveEvent::Answer(" Yes\n".to_string()));
    assert!(matches!(&a, RemoveAction::Delete { name, .. } if name == "Work"));

    let (s, _) = loaded("work", false);
    let (s, a) = step("work", false, s, RemoveEvent::Answer("n\n".to_string()));
    assert!(matches!(s, RemoveState::Done));
    assert!(matches!(a, RemoveAction::Fail(e) if e.message == "Cancelled." && e.code == ErrorCode::InvalidInput));

    let (s, _) = loaded("work", false);
    let (_, a) = step("work", false, s, RemoveEvent::NoTerminal);
    match a {
        RemoveAction::Fail(e) => {
            assert_eq!(e.message, "Removing 'Work' needs confirmation and there is no terminal to ask on.");
            assert_eq!(e.remediation.as_deref(), Some("twitter accounts remove Work --yes"));
        }
        other => panic!("{other:?}"),
    }
}

#[test]
fn remove_of_an_unknown_account() {
    let (s, a) = loaded("home", true);
    assert!(matches!(s, RemoveState::Done));
    match a {
        RemoveAction::Fail(e) => {
            assert_eq!(e.code, ErrorCode::NoAccount);
            assert_eq!(e.message, "No account named 'home'.");
        }
        other => panic!("{other:?}"),
    }
    assert!(!remove_accepts(&RemoveState::Done, &RemoveEvent::Deleted));
}
