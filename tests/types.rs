use lanpaste::errors::AppError;
use lanpaste::index::{hydrate_commit, meta_rel_path, needs_hydration, select_recent, short_commit};
use lanpaste::preflight::{_resolve_paths, daemon_lock_path};
use lanpaste::types::{AppPaths, PasteMeta, Timestamp};

#[test]
fn paths_from_base() {
    let p = AppPaths::from_base("/data".to_string());
    assert_eq!(p.repo, "/data/repo");
    assert_eq!(p.run, "/data/run");
    assert_eq!(p.tmp, "/data/tmp");
    assert_eq!(p.git_lock, "/data/run/git.lock");
    assert_eq!(p.idempotency, "/data/run/idempotency");
    let q = _resolve_paths("/data/".to_string());
    assert_eq!(q.repo, "/data/repo");
    assert_eq!(daemon_lock_path(&q), "/data/run/daemon.lock");
}

#[test]
fn error_mapping() {
    let e = AppError::Forbidden("no".to_string());
    assert_eq!(e.status_code(), 403);
    assert_eq!(e.code(), "forbidden");
    assert_eq!(e.message(), "no");
    let body = e.body();
    assert_eq!(body.error, "forbidden");
    assert_eq!(body.message, "no");
    assert_eq!(AppError::TooManyRequests(String::new()).status_code(), 429);
    assert_eq!(AppError::ServiceUnavailable(String::new()).code(), "service_unavailable");
    let io = AppError::io("read meta", "denied");
    assert!(matches!(io, AppError::Internal(ref m) if m == "read meta: denied"));
    assert!(matches!(AppError::internal("x".to_string()), AppError::Internal(_)));
}

fn meta(id: &str, nanos: i128, tag: Option<&str>, commit: &str) -> PasteMeta {
    PasteMeta {
        id: id.to_string(),
        created_at: Timestamp { unix_nanos: nanos },
        path: format!("pastes/x/{id}__a.txt"),
        size: 1,
        content_type: "text/plain".to_string(),
        commit: commit.to_string(),
        sha256: String::new(),
        tag: tag.map(|s| s.to_string()),
        client_ip: None,
        user_agent: None,
    }
}

#[test]
fn recent_is_filtered_sorted_and_truncated() {
    let all = vec![
        meta("a", 10, Some("t"), ""),
        meta("b", 30, None, ""),
        meta("c", 20, Some("t"), ""),
        meta("d", 20, Some("t"), ""),
        meta("e", 5, Some("u"), ""),
    ];
    let ids = |v: Vec<PasteMeta>| v.into_iter().map(|m| m.id).collect::<Vec<_>>();
    assert_eq!(ids(select_recent(all, 10, None)), vec!["b", "c", "d", "a", "e"]);
    let all = vec![
        meta("a", 10, Some("t"), ""),
        meta("b", 30, None, ""),
        meta("c", 20, Some("t"), ""),
        meta("d", 20, Some("t"), ""),
    ];
    assert_eq!(ids(select_recent(all, 2, Some("t"))), vec!["c", "d"]);
    assert!(select_recent(vec![], 3, None).is_empty());
}

#[test]
fn hydration_fills_missing_commit() {
    let m = meta("a", 1, None, "");
    assert!(needs_hydration(&m));
    let h = hydrate_commit(m, "0123456789abcdef0123");
    assert_eq!(h.commit, "0123456789ab");
    let kept = hydrate_commit(meta("b", 1, None, "fedcba987654"), "0123456789abcdef");
    assert_eq!(kept.commit, "fedcba987654");
    assert_eq!(short_commit("abc"), "abc");
    assert_eq!(meta_rel_path("01X"), "meta/01X.json");
}
