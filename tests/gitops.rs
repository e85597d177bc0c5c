use lanpaste::config::PushMode;
use lanpaste::errors::AppError;
use lanpaste::gitops::{
    is_work_tree, merge_gitignore, merge_lines, CommitAction, CommitRun, CommitStage, GitOp,
    GitOutcome,
};
use lanpaste::store::build_paste_draft_at;
use lanpaste::types::{push_mode_label, CreatePasteInput, PasteDraft, Timestamp, UtcDate};

#[test]
fn push_mode_display() {
    assert_eq!(push_mode_label(PushMode::BestEffort), "best_effort");
}

fn draft() -> PasteDraft {
    build_paste_draft_at(
        "/repo",
        CreatePasteInput {
            name: Some("n.md".to_string()),
            msg: None,
            tag: None,
            content_type: None,
            bytes: b"hello".to_vec(),
            client_ip: None,
            user_agent: None,
        },
        "ID".to_string(),
        Timestamp { unix_nanos: 0 },
        UtcDate { year: 2026, month: 2, day: 13 },
    )
    .unwrap()
}

fn ok(s: &str) -> GitOutcome {
    GitOutcome::Success(s.to_string())
}

fn args(a: &CommitAction) -> Vec<String> {
    match a {
        CommitAction::Git(op) => op.args(),
        other => panic!("expected a git action, got {other:?}"),
    }
}

#[test]
fn commit_without_push() {
    let d = draft();
    let (mut run, a) = CommitRun::start(&d, PushMode::Off, "origin");
    assert_eq!(args(&a), vec!["add", "pastes/2026/02/13/ID__n.md.md", "meta/ID.json"]);
    let a = run.step(ok(""));
    assert_eq!(args(&a), vec!["commit", "-m", "paste: ID n.md"]);
    let a = run.step(ok(""));
    assert_eq!(args(&a), vec!["rev-parse", "--short=12", "HEAD"]);
    let a = run.step(ok("0123456789ab"));
    assert!(run.is_finished());
    match a {
        CommitAction::Finish(Ok(r)) => {
            assert_eq!(r.commit, "0123456789ab");
            assert!(!r.pushed);
            assert!(r.push_error.is_none());
        },
        other => panic!("{other:?}"),
    }
}

#[test]
fn best_effort_push_failure_still_succeeds() {
    let d = draft();
    let (mut run, _) = CommitRun::start(&d, PushMode::BestEffort, "origin");
    run.step(ok(""));
    run.step(ok(""));
    let a = run.step(ok("abc"));
    assert_eq!(args(&a), vec!["push", "origin", "HEAD"]);
    match run.step(GitOutcome::Failure("no remote".to_string())) {
        CommitAction::Finish(Ok(r)) => {
            assert_eq!(r.commit, "abc");
            assert!(!r.pushed);
            assert_eq!(r.push_error.as_deref(), Some("no remote"));
        },
        other => panic!("{other:?}"),
    }
}

#[test]
fn strict_push_failure_rolls_back() {
    let d = draft();
    let (mut run, _) = CommitRun::start(&d, PushMode::Strict, "no-such-remote");
    run.step(ok(""));
    run.step(ok(""));
    run.step(ok("abc"));
    let a = run.step(GitOutcome::Failure("rejected".to_string()));
    assert_eq!(args(&a), vec!["reset", "--soft", "HEAD~1"]);
    assert_eq!(run.stage, CommitStage::UndoingCommit);
    match run.step(ok("")) {
        CommitAction::RemoveFile(p) => assert_eq!(p, "/repo/pastes/2026/02/13/ID__n.md.md"),
        other => panic!("{other:?}"),
    }
    match run.step(GitOutcome::Failure("gone".to_string())) {
        CommitAction::RemoveFile(p) => assert_eq!(p, "/repo/meta/ID.json"),
        other => panic!("{other:?}"),
    }
    let a = run.step(ok(""));
    assert_eq!(args(&a), vec!["reset"]);
    match run.step(ok("")) {
        CommitAction::Finish(Err(AppError::Internal(m))) => {
            assert_eq!(m, "push failed in strict mode: rejected")
        },
        other => panic!("{other:?}"),
    }
    assert!(run.is_finished());
}

#[test]
fn strict_push_success() {
    let d = draft();
    let (mut run, _) = CommitRun::start(&d, PushMode::Strict, "origin");
    run.step(ok(""));
    run.step(ok(""));
    run.step(ok("abc"));
    match run.step(ok("")) {
        CommitAction::Finish(Ok(r)) => {
            assert!(r.pushed);
            assert_eq!(r.commit, "abc");
        },
        other => panic!("{other:?}"),
    }
}

#[test]
fn commit_failure_is_internal() {
    let d = draft();
    let (mut run, _) = CommitRun::start(&d, PushMode::Off, "origin");
    run.step(ok(""));
    match run.step(GitOutcome::Failure("nothing to commit".to_string())) {
        CommitAction::Finish(Err(AppError::Internal(m))) => assert_eq!(m, "nothing to commit"),
        other => panic!("{other:?}"),
    }
}

#[test]
fn git_argument_vectors() {
    assert_eq!(GitOp::IsWorkTree.args(), vec!["rev-parse", "--is-inside-work-tree"]);
    assert_eq!(GitOp::Init.args(), vec!["init"]);
    assert_eq!(GitOp::VerifyHead.args(), vec!["rev-parse", "--verify", "HEAD"]);
    assert_eq!(
        GitOp::StageLayout.args(),
        vec!["add", "README.md", ".gitignore", "pastes", "meta"]
    );
    assert_eq!(GitOp::CommitLayout.args(), vec!["commit", "-m", "init lanpaste repository"]);
    assert_eq!(
        GitOp::LastCommitFor { path: "p".to_string() }.args(),
        vec!["log", "-n", "1", "--format=%H", "--", "p"]
    );
}

#[test]
fn work_tree_detection() {
    assert!(is_work_tree(&ok("true")));
    assert!(!is_work_tree(&ok("false")));
    assert!(!is_work_tree(&GitOutcome::Failure("x".to_string())));
}

#[test]
fn gitignore_merge() {
    let merged = merge_gitignore("");
    assert!(merged.starts_with("# runtime / scratch (defensive)\n../run/\n../tmp/\n"));
    assert!(merged.ends_with("target/\n"));
    assert_eq!(merge_gitignore(&merged), merged);
    let lines = vec!["a".to_string(), "b".to_string()];
    assert_eq!(merge_lines("xa\n", &lines), "xa\nb\n");
}
