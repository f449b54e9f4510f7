//! Removing an account (`accounts remove`) as a sequence of steps: find the account, ask for
//! confirmation unless `--yes`, delete the key and the record, report.

use vstd::prelude::*;

use crate::account::account_label;
use crate::commands::accounts::{
    cancelled, confirm_prompt, confirmation_unavailable, invalid_error, remove_target, removed_form,
    removed_report,
};
use crate::config::{account_entries, is_first_match, no_match, AccountConfig, Config};
use crate::error::{opt_text, Error, ErrorCode};
use crate::json::{object_is, Json};
use crate::secrets::Store;
use crate::text::{lowercase, trimmed};

verus! {

/// Where removing an account stands.
#[derive(Debug)]
pub enum RemoveState {
    Start,
    /// Waiting for the backend and the configuration.
    Loading,
    /// Waiting for the answer to the confirmation question.
    Confirming { name: String, account: AccountConfig, store: Store },
    /// Waiting for the key and the record to be deleted.
    Deleting { name: String, account: AccountConfig },
    Done,
}

/// What the caller did.
#[derive(Debug)]
pub enum RemoveEvent {
    Begin,
    /// The backend and the configuration were loaded.
    Loaded(Store, Config),
    /// The line answered to the confirmation question.
    Answer(String),
    /// There is no terminal to ask on.
    NoTerminal,
    /// The key and the record are gone.
    Deleted,
}

/// What to do next.
#[derive(Debug)]
pub enum RemoveAction {
    /// Choose the backend and load the configuration.
    Load,
    /// Ask `question` on the terminal and read the answer; answer `NoTerminal` without one.
    Confirm { question: String },
    /// Delete the account's key from `store` and its record from the configuration, under the
    /// config lock.
    Delete { store: Store, name: String },
    /// Print the report.
    Finish(Json),
    /// Stop with this error.
    Fail(Error),
}

/// The event is one the state is waiting for.
pub open spec fn remove_awaits(s: RemoveState, e: RemoveEvent) -> bool {
    match s {
        RemoveState::Start => e is Begin,
        RemoveState::Loading => e is Loaded,
        RemoveState::Confirming { .. } => e is Answer || e is NoTerminal,
        RemoveState::Deleting { .. } => e is Deleted,
        RemoveState::Done => false,
    }
}

/// Whether `e` is an event that `s` waits for.
pub fn remove_accepts(s: &RemoveState, e: &RemoveEvent) -> (r: bool)
    ensures
        r == remove_awaits(*s, *e),
{
    match s {
        RemoveState::Start => matches!(e, RemoveEvent::Begin),
        RemoveState::Loading => matches!(e, RemoveEvent::Loaded(_, _)),
        RemoveState::Confirming { .. } => matches!(e, RemoveEvent::Answer(_)) || matches!(e, RemoveEvent::NoTerminal),
        RemoveState::Deleting { .. } => matches!(e, RemoveEvent::Deleted),
        RemoveState::Done => false,
    }
}

/// Deleting account `name` (with record `account`) from `store`.
pub open spec fn deletes(r: (RemoveState, RemoveAction), name: Seq<char>, account: AccountConfig, store: Store) -> bool {
    &&& r.0 matches RemoveState::Deleting { name: n, account: a } && n@ == name && a@ == account@
    &&& r.1 matches RemoveAction::Delete { store: s, name: n } && s == store && n@ == name
}

/// One step of removing account `requested` (`yes`: without asking).
pub open spec fn remove_next(requested: Seq<char>, yes: bool, s: RemoveState, e: RemoveEvent, r: (RemoveState, RemoveAction)) -> bool {
    match (s, e) {
        (RemoveState::Start, RemoveEvent::Begin) => r.0 is Loading && r.1 is Load,
        (RemoveState::Loading, RemoveEvent::Loaded(store, config)) => {
            let es = account_entries(config.accounts);
            if no_match(es, requested) {
                &&& r.0 is Done
                &&& r.1 matches RemoveAction::Fail(err) && err.code == ErrorCode::NoAccount
                    && err.message@ == "No account named '"@ + requested + "'."@ && err.detail is None
                    && opt_text(err.remediation) == Some("twitter accounts list"@)
            } else {
                exists|i: int|
                    #[trigger] is_first_match(es, requested, i) && if yes {
                        &&& r.0 matches RemoveState::Deleting { name: n, account: a } && n@ == es[i].0
                            && a@ == es[i].1
                        &&& r.1 matches RemoveAction::Delete { store: st, name: n } && st == store && n@
                            == es[i].0
                    } else {
                        &&& r.0 matches RemoveState::Confirming { name: n, account: a, store: st } && n@
                            == es[i].0 && a@ == es[i].1 && st == store
                        &&& r.1 matches RemoveAction::Confirm { question: q } && q@ == "Remove account "@
                            + account_label(es[i]) + "? [y/N] "@
                    }
            }
        },
        (RemoveState::Confirming { name, account, store }, RemoveEvent::NoTerminal) => {
            &&& r.0 is Done
            &&& r.1 matches RemoveAction::Fail(err) && invalid_error(
                err,
                "Removing '"@ + name@ + "' needs confirmation and there is no terminal to ask on."@,
                Some("twitter accounts remove "@ + name@ + " --yes"@),
            )
        },
        (RemoveState::Confirming { name, account, store }, RemoveEvent::Answer(a)) => {
            let t = lowercase(trimmed(a@));
            if t == "y"@ || t == "yes"@ {
                deletes(r, name@, account, store)
            } else {
                &&& r.0 is Done
                &&& r.1 matches RemoveAction::Fail(err) && invalid_error(err, "Cancelled."@, None)
            }
        },
        (RemoveState::Deleting { name, account }, RemoveEvent::Deleted) => {
            &&& r.0 is Done
            &&& r.1 matches RemoveAction::Finish(report) && object_is(
                report,
                removed_form(name@, account.identity@),
            )
        },
        _ => false,
    }
}

/// Without `--yes` an account is deleted only on a confirming answer: a step that asks to
/// delete either runs with `--yes`, or answers the question with `y` or `yes` (any case, any
/// surrounding whitespace).
pub proof fn lemma_deleted_only_when_confirmed(requested: Seq<char>, yes: bool, s: RemoveState, e: RemoveEvent, r: (RemoveState, RemoveAction))
    requires
        remove_next(requested, yes, s, e, r),
        r.1 is Delete,
    ensures
        yes || (s is Confirming && (e matches RemoveEvent::Answer(a) && (lowercase(trimmed(a@)) == "y"@
            || lowercase(trimmed(a@)) == "yes"@))),
{
}

/// One step of removing account `requested` (`yes`: without asking).
pub fn remove_step(requested: &str, yes: bool, s: RemoveState, e: RemoveEvent) -> (r: (RemoveState, RemoveAction))
    requires
        remove_awaits(s, e),
    ensures
        remove_next(requested@, yes, s, e, r),
{
    match (s, e) {
        (RemoveState::Start, RemoveEvent::Begin) => (RemoveState::Loading, RemoveAction::Load),
        (RemoveState::Loading, RemoveEvent::Loaded(store, config)) => match remove_target(requested, &config) {
            Err(err) => (RemoveState::Done, RemoveAction::Fail(err)),
            Ok((name, account)) => {
                if yes {
                    let n = name.clone();
                    (RemoveState::Deleting { name, account }, RemoveAction::Delete { store, name: n })
                } else {
                    let question = confirm_prompt(&name, &account);
                    (RemoveState::Confirming { name, account, store }, RemoveAction::Confirm { question })
                }
            },
        },
        (RemoveState::Confirming { name, account, store }, RemoveEvent::NoTerminal) => (
            RemoveState::Done,
            RemoveAction::Fail(confirmation_unavailable(name.as_str())),
        ),
        (RemoveState::Confirming { name, account, store }, RemoveEvent::Answer(a)) => {
            if crate::commands::accounts::confirmed(a.as_str()) {
                let n = name.clone();
                (RemoveState::Deleting { name, account }, RemoveAction::Delete { store, name: n })
            } else {
                (RemoveState::Done, RemoveAction::Fail(cancelled()))
            }
        },
        (RemoveState::Deleting { name, account }, RemoveEvent::Deleted) => {
            let report = removed_report(name.as_str(), account.identity.as_str());
            (RemoveState::Done, RemoveAction::Finish(report))
        },
        _ => vstd::pervasive::unreached(),
    }
}

} // verus!
