use lanpaste::config::PushMode;
use lanpaste::digest::request_fingerprint;
use lanpaste::errors::AppError;
use lanpaste::flow::{CreateAction, CreateFlow, FlowEvent};
use lanpaste::gitops::GitOutcome;
use lanpaste::idempotency::create_response;
use lanpaste::types::{CreatePasteInput, IdempotencyRecord};

fn input(body: &[u8]) -> CreatePasteInput {
    CreatePasteInput {
        name: Some("idempotent.txt".to_string()),
        msg: None,
        tag: None,
        content_type: None,
        bytes: body.to_vec(),
        client_ip: None,
        user_agent: None,
    }
}

fn git_ok(s: &str) -> FlowEvent {
    FlowEvent::Git(GitOutcome::Success(s.to_string()))
}

fn is_git(a: &CreateAction, first: &str) -> bool {
    match a {
        CreateAction::Git(op) => op.args()[0] == first,
        _ => false,
    }
}

#[test]
fn create_without_key_commits_once_and_answers() {
    let (mut flow, a) = CreateFlow::start("/repo", input(b"x"), None, PushMode::Off, "origin");
    assert!(matches!(a, CreateAction::LockRepository));
    let a = flow.step(FlowEvent::Done);
    assert!(matches!(a, CreateAction::WriteFiles));
    assert!(flow.draft().unwrap().rel_path.ends_with("__idempotent.txt.txt"));
    let a = flow.step(FlowEvent::Done);
    assert!(is_git(&a, "add"));
    let a = flow.step(git_ok(""));
    assert!(is_git(&a, "commit"));
    let a = flow.step(git_ok(""));
    assert!(is_git(&a, "rev-parse"));
    match flow.step(git_ok("0123456789ab")) {
        CreateAction::Respond(Ok(c)) => {
            assert!(!c.replayed);
            assert_eq!(c.response.commit, "0123456789ab");
            assert!(c.response.path.starts_with("pastes/"));
        },
        other => panic!("{other:?}"),
    }
    assert!(flow.is_finished());
}

#[test]
fn create_with_key_records_after_commit() {
    let (mut flow, _) =
        CreateFlow::start("/repo", input(b"same payload"), Some(" retry-123 "), PushMode::Off, "origin");
    match flow.step(FlowEvent::Done) {
        CreateAction::ReadLedger(k) => assert_eq!(k, "retry-123"),
        other => panic!("{other:?}"),
    }
    assert!(matches!(flow.step(FlowEvent::Ledger(None)), CreateAction::WriteFiles));
    flow.step(FlowEvent::Done);
    flow.step(git_ok(""));
    flow.step(git_ok(""));
    match flow.step(git_ok("abc")) {
        CreateAction::WriteLedger(k, rec) => {
            assert_eq!(k, "retry-123");
            let n = Some("idempotent.txt".to_string());
            assert_eq!(rec.request_fingerprint, request_fingerprint(&n, &None, &None, b"same payload"));
            assert_eq!(rec.response.commit, "abc");
        },
        other => panic!("{other:?}"),
    }
    match flow.step(FlowEvent::Done) {
        CreateAction::Respond(Ok(c)) => {
            assert!(!c.replayed);
            assert_eq!(c.response.commit, "abc");
        },
        other => panic!("{other:?}"),
    }
}

fn stored(body: &[u8]) -> IdempotencyRecord {
    let n = Some("idempotent.txt".to_string());
    IdempotencyRecord {
        request_fingerprint: request_fingerprint(&n, &None, &None, body),
        response: create_response("01FIRST", "pastes/p", "c0ffee"),
    }
}

#[test]
fn replay_returns_first_response_without_commit() {
    let (mut flow, _) =
        CreateFlow::start("/repo", input(b"same payload"), Some("retry-123"), PushMode::Off, "origin");
    flow.step(FlowEvent::Done);
    match flow.step(FlowEvent::Ledger(Some(stored(b"same payload")))) {
        CreateAction::Respond(Ok(c)) => {
            assert!(c.replayed);
            assert_eq!(c.response.id, "01FIRST");
            assert_eq!(c.response.commit, "c0ffee");
        },
        other => panic!("{other:?}"),
    }
    assert!(flow.is_finished());
    assert!(flow.draft().is_none());
}

#[test]
fn replay_with_other_payload_conflicts() {
    let (mut flow, _) = CreateFlow::start(
        "/repo",
        input(b"different payload"),
        Some("retry-123"),
        PushMode::Off,
        "origin",
    );
    flow.step(FlowEvent::Done);
    let a = flow.step(FlowEvent::Ledger(Some(stored(b"same payload"))));
    assert!(matches!(a, CreateAction::Respond(Err(AppError::Conflict(_)))));
}

#[test]
fn failed_strict_push_is_not_recorded() {
    let (mut flow, _) =
        CreateFlow::start("/repo", input(b"x"), Some("k"), PushMode::Strict, "no-such-remote");
    flow.step(FlowEvent::Done);
    flow.step(FlowEvent::Ledger(None));
    flow.step(FlowEvent::Done);
    flow.step(git_ok(""));
    flow.step(git_ok(""));
    let a = flow.step(git_ok("abc"));
    assert!(is_git(&a, "push"));
    let a = flow.step(FlowEvent::Git(GitOutcome::Failure("rejected".to_string())));
    assert!(is_git(&a, "reset"));
    assert!(matches!(flow.step(git_ok("")), CreateAction::RemoveFile(_)));
    assert!(matches!(flow.step(git_ok("")), CreateAction::RemoveFile(_)));
    assert!(is_git(&flow.step(git_ok("")), "reset"));
    assert!(matches!(flow.step(git_ok("")), CreateAction::Respond(Err(AppError::Internal(_)))));
}

#[test]
fn lock_failure_ends_with_conflict() {
    let (mut flow, _) = CreateFlow::start("/repo", input(b"x"), None, PushMode::Off, "origin");
    let a = flow.step(FlowEvent::Failed(AppError::Conflict("already running".to_string())));
    assert!(matches!(a, CreateAction::Respond(Err(AppError::Conflict(_)))));
    assert!(!flow.accepts(&FlowEvent::Done));
}

#[test]
fn bad_name_is_refused_before_writing() {
    let mut i = input(b"x");
    i.name = Some("../a".to_string());
    let (mut flow, _) = CreateFlow::start("/repo", i, None, PushMode::Off, "origin");
    assert!(matches!(
        flow.step(FlowEvent::Done),
        CreateAction::Respond(Err(AppError::BadRequest(_)))
    ));
}
