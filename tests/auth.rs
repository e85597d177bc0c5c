use lanpaste::auth::{authorize, authorize_at, ApiKeyEntry, ApiKeyStore, Scope};
use lanpaste::errors::AppError;

fn entry(name: Option<&str>, key: &str, scopes: &[&str], max: Option<u32>) -> ApiKeyEntry {
    ApiKeyEntry {
        name: name.map(|s| s.to_string()),
        key: key.to_string(),
        scopes: scopes.iter().map(|s| s.to_string()).collect(),
        max_requests_per_minute: max,
    }
}

#[test]
fn disabled_store_allows_requests() {
    assert!(authorize(&mut ApiKeyStore::default(), None, Scope::ApiIndex).is_ok());
}

#[test]
fn scope_strings() {
    assert_eq!(Scope::ApiIndex.as_str(), "api:index");
    assert_eq!(Scope::PasteCreate.as_str(), "paste:create");
    assert_eq!(Scope::PasteRead.as_str(), "paste:read");
    assert_eq!(Scope::RecentRead.as_str(), "recent:read");
}

#[test]
fn store_validation() {
    assert!(ApiKeyStore::from_entries(vec![]).unwrap().enabled() == false);
    assert!(ApiKeyStore::from_entries(vec![entry(None, "k", &["*"], None)]).unwrap().enabled());
    assert!(matches!(
        ApiKeyStore::from_entries(vec![entry(None, "  ", &["*"], None)]),
        Err(AppError::Internal(_))
    ));
    assert!(matches!(
        ApiKeyStore::from_entries(vec![entry(None, "k", &[], None)]),
        Err(AppError::Internal(_))
    ));
    assert!(matches!(
        ApiKeyStore::from_entries(vec![entry(None, "k", &["*"], Some(0))]),
        Err(AppError::Internal(_))
    ));
    assert!(matches!(
        ApiKeyStore::from_entries(vec![entry(None, "k", &["*"], None), entry(None, "k", &["*"], None)]),
        Err(AppError::Internal(_))
    ));
}

#[test]
fn keys_and_scopes_are_checked() {
    let mut store = ApiKeyStore::from_entries(vec![
        entry(Some("reader"), "reader-key", &["paste:read"], None),
        entry(Some("writer"), "writer-key", &["*"], None),
    ])
    .unwrap();
    assert!(matches!(authorize(&mut store, None, Scope::PasteRead), Err(AppError::Unauthorized(_))));
    assert!(matches!(authorize(&mut store, Some(""), Scope::PasteRead), Err(AppError::Unauthorized(_))));
    assert!(matches!(
        authorize(&mut store, Some("nope"), Scope::PasteRead),
        Err(AppError::Unauthorized(_))
    ));
    assert!(authorize(&mut store, Some("reader-key"), Scope::PasteRead).is_ok());
    assert!(matches!(
        authorize(&mut store, Some("reader-key"), Scope::PasteCreate),
        Err(AppError::Forbidden(_))
    ));
    assert!(authorize(&mut store, Some("writer-key"), Scope::PasteCreate).is_ok());
    assert_eq!(store.resolve_key("writer-key"), Some(1));
    assert_eq!(store.resolve_key("x"), None);
}

#[test]
fn rate_limit_per_minute() {
    let mut store = ApiKeyStore::from_entries(vec![entry(
        Some("limited"),
        "limited-key",
        &["paste:create"],
        Some(1),
    )])
    .unwrap();
    assert!(authorize_at(&mut store, Some("limited-key"), Scope::PasteCreate, 29_000_000).is_ok());
    assert!(matches!(
        authorize_at(&mut store, Some("limited-key"), Scope::PasteCreate, 29_000_000),
        Err(AppError::TooManyRequests(_))
    ));
    assert!(authorize_at(&mut store, Some("limited-key"), Scope::PasteCreate, 29_000_001).is_ok());
    assert!(matches!(
        authorize_at(&mut store, Some("limited-key"), Scope::PasteCreate, 29_000_001),
        Err(AppError::TooManyRequests(_))
    ));
}

#[test]
fn unnamed_keys_are_counted_by_key_prefix() {
    let mut store = ApiKeyStore::from_entries(vec![
        entry(None, "abcdefgh-1", &["*"], Some(2)),
        entry(None, "abcdefgh-2", &["*"], Some(2)),
    ])
    .unwrap();
    assert!(authorize_at(&mut store, Some("abcdefgh-1"), Scope::ApiIndex, 5).is_ok());
    assert!(authorize_at(&mut store, Some("abcdefgh-2"), Scope::ApiIndex, 5).is_ok());
    assert!(authorize_at(&mut store, Some("abcdefgh-1"), Scope::ApiIndex, 5).is_err());
}

#[test]
fn rate_limit_current_minute() {
    let mut store =
        ApiKeyStore::from_entries(vec![entry(Some("w"), "w-key", &["*"], Some(1000))]).unwrap();
    assert!(authorize(&mut store, Some("w-key"), Scope::RecentRead).is_ok());
    assert!(store.enforce_rate_limit(0).is_ok());
}
