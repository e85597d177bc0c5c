use lanpaste::errors::AppError;
use lanpaste::store::{
    build_paste_draft, build_paste_draft_at, check_cidr, check_size, choose_ext, recent_limit,
    renders_as_markdown, sanitize_name, verify_token, IpNetwork,
};
use lanpaste::types::{CreatePasteInput, IpAddress, Timestamp, UtcDate};

fn input(name: Option<&str>, tag: Option<&str>, ct: Option<&str>, body: &[u8]) -> CreatePasteInput {
    CreatePasteInput {
        name: name.map(|s| s.to_string()),
        msg: None,
        tag: tag.map(|s| s.to_string()),
        content_type: ct.map(|s| s.to_string()),
        bytes: body.to_vec(),
        client_ip: None,
        user_agent: None,
    }
}

#[test]
fn sanitize_ok() {
    assert_eq!(sanitize_name("my note.md").expect("sanitize"), "my-note.md");
}

#[test]
fn sanitize_rejects_path() {
    assert!(sanitize_name("../a").is_err());
}

#[test]
fn ext_selection() {
    assert_eq!(choose_ext(Some("a.md"), None), "md");
    assert_eq!(choose_ext(None, Some("text/markdown")), "md");
    assert_eq!(choose_ext(Some("a.txt"), Some("text/plain")), "txt");
}

#[test]
fn token_cmp() {
    assert!(verify_token(Some("abc"), Some("abc")).is_ok());
    assert!(verify_token(Some("abc"), Some("abd")).is_err());
}

#[test]
fn cidr_match() {
    let allow = vec![IpNetwork::v4(0xC0A8_0100, 24).expect("parse")];
    assert!(check_cidr(&allow, Some(IpAddress::V4(0xC0A8_0108))).is_ok());
    assert!(check_cidr(&allow, Some(IpAddress::V4(0x0A00_0001))).is_err());
}

#[test]
fn sanitize_rejects_each_separator() {
    for bad in ["a/b", "a\\b", "a..b", "..", "/"] {
        assert!(matches!(sanitize_name(bad), Err(AppError::BadRequest(_))), "{bad}");
    }
}

#[test]
fn sanitize_collapses_and_trims() {
    assert_eq!(sanitize_name("  a  b!!c  ").unwrap(), "a-b-c");
    assert_eq!(sanitize_name("--x--").unwrap(), "x");
    assert_eq!(sanitize_name("héllo wörld").unwrap(), "h-llo-w-rld");
    assert_eq!(sanitize_name(".hidden").unwrap(), ".hidden");
}

#[test]
fn sanitize_falls_back_to_default() {
    assert_eq!(sanitize_name("").unwrap(), "paste");
    assert_eq!(sanitize_name("   ").unwrap(), "paste");
    assert_eq!(sanitize_name("!!!").unwrap(), "paste");
}

#[test]
fn sanitize_truncates_to_eighty() {
    let long = "x".repeat(200);
    let s = sanitize_name(&long).unwrap();
    assert_eq!(s.len(), 80);
    let s = sanitize_name(&"a b ".repeat(40)).unwrap();
    assert!(s.len() <= 80);
    assert!(!s.contains("--"));
    assert!(s.chars().all(|c| c.is_ascii_alphanumeric() || "._-".contains(c)));
}

#[test]
fn ext_is_case_insensitive() {
    assert_eq!(choose_ext(Some("README.MD"), None), "md");
    assert_eq!(choose_ext(None, Some("Text/Markdown; charset=utf-8")), "md");
    assert_eq!(choose_ext(None, None), "txt");
    assert_eq!(choose_ext(Some("md"), None), "txt");
}

#[test]
fn token_without_configuration_is_accepted() {
    assert!(verify_token(None, None).is_ok());
    assert!(matches!(verify_token(Some("abc"), None), Err(AppError::Unauthorized(_))));
    assert!(verify_token(Some(""), None).is_ok());
}

#[test]
fn cidr_edges() {
    assert!(check_cidr(&[], None).is_ok());
    let allow = vec![IpNetwork::v4(0x0A00_0000, 8).unwrap()];
    assert!(matches!(check_cidr(&allow, None), Err(AppError::Forbidden(_))));
    assert!(check_cidr(&allow, Some(IpAddress::V6(1))).is_err());
    let any = vec![IpNetwork::v4(0, 0).unwrap()];
    assert!(check_cidr(&any, Some(IpAddress::V4(0xFFFF_FFFF))).is_ok());
    let v6 = vec![IpNetwork::v6(0x2001_0db8u128 << 96, 32).unwrap()];
    assert!(check_cidr(&v6, Some(IpAddress::V6((0x2001_0db8u128 << 96) | 5))).is_ok());
    assert!(IpNetwork::v4(0, 33).is_none());
}

#[test]
fn size_limit() {
    assert!(check_size(10, 10).is_ok());
    assert!(matches!(check_size(11, 10), Err(AppError::TooLarge(_))));
}

#[test]
fn recent_limit_defaults_and_caps() {
    assert_eq!(recent_limit(None), 50);
    assert_eq!(recent_limit(Some(7)), 7);
    assert_eq!(recent_limit(Some(10_000)), 500);
}

#[test]
fn markdown_view_choice() {
    assert!(renders_as_markdown("text/markdown; charset=utf-8", "pastes/a.txt"));
    assert!(renders_as_markdown("text/plain", "pastes/a.md"));
    assert!(!renders_as_markdown("text/plain", "pastes/a.txt"));
}

fn day() -> UtcDate {
    UtcDate { year: 2026, month: 2, day: 13 }
}

#[test]
fn draft_scenario_markdown_note() {
    let id = "01ARZ3NDEKTSV4RRFFQ69G5FAV".to_string();
    let d = build_paste_draft_at(
        "/srv/repo",
        input(Some("my note.md"), None, Some("text/markdown"), b"# hi"),
        id,
        Timestamp { unix_nanos: 1_770_940_800_000_000_000 },
        day(),
    )
    .unwrap();
    assert_eq!(d.rel_path, "pastes/2026/02/13/01ARZ3NDEKTSV4RRFFQ69G5FAV__my-note.md.md");
    assert_eq!(d.abs_path, "/srv/repo/pastes/2026/02/13/01ARZ3NDEKTSV4RRFFQ69G5FAV__my-note.md.md");
    assert_eq!(d.content_type, "text/markdown; charset=utf-8");
    assert_eq!(d.meta_rel_path, "meta/01ARZ3NDEKTSV4RRFFQ69G5FAV.json");
    assert_eq!(d.meta_path, "/srv/repo/meta/01ARZ3NDEKTSV4RRFFQ69G5FAV.json");
    assert_eq!(d.subject, "paste: 01ARZ3NDEKTSV4RRFFQ69G5FAV my-note.md");
    assert_eq!(d.size, 4);
    assert_eq!(d.content, b"# hi".to_vec());
    assert_eq!(d.meta.path, d.rel_path);
    assert_eq!(d.meta.commit, "");
    assert_eq!(d.meta.sha256, d.sha256);
}

#[test]
fn draft_plain_text_keeps_declared_type_and_tag() {
    let d = build_paste_draft_at(
        "repo/",
        input(Some("n.txt"), Some("t"), Some("text/csv"), b"a,b"),
        "ID".to_string(),
        Timestamp { unix_nanos: 0 },
        UtcDate { year: 987, month: 1, day: 5 },
    )
    .unwrap();
    assert_eq!(d.rel_path, "pastes/0987/01/05/ID__n.txt.txt");
    assert_eq!(d.abs_path, "repo/pastes/0987/01/05/ID__n.txt.txt");
    assert_eq!(d.content_type, "text/csv");
    assert_eq!(d.subject, "paste: ID n.txt [tag:t]");
    assert_eq!(d.meta.tag.as_deref(), Some("t"));
}

#[test]
fn draft_defaults_and_message() {
    let mut i = input(None, None, None, b"x");
    i.msg = Some("custom subject".to_string());
    let d = build_paste_draft_at("r", i, "ID".to_string(), Timestamp { unix_nanos: 0 }, day())
        .unwrap();
    assert_eq!(d.rel_path, "pastes/2026/02/13/ID__paste.txt");
    assert_eq!(d.content_type, "text/plain; charset=utf-8");
    assert_eq!(d.subject, "custom subject");
}

#[test]
fn draft_rejects_bad_name() {
    let r = build_paste_draft_at(
        "r",
        input(Some("../x"), None, None, b"x"),
        "ID".to_string(),
        Timestamp { unix_nanos: 0 },
        day(),
    );
    assert!(matches!(r, Err(AppError::BadRequest(_))));
}

#[test]
fn draft_hash_is_sha256_of_content() {
    let d = build_paste_draft_at(
        "r",
        input(Some("a"), None, None, b"abc"),
        "ID".to_string(),
        Timestamp { unix_nanos: 0 },
        day(),
    )
    .unwrap();
    assert_eq!(d.sha256, "ba7816bf8f01cfea414140de5dae2223b00361a396177a9cb410ff61f20015ad");
    assert_eq!(d.meta.sha256, d.sha256);
}

#[test]
fn draft_layout_with_fresh_id() {
    let d = build_paste_draft("repo", input(Some("my note.md"), None, Some("text/markdown"), b"# hi"))
        .expect("draft");
    assert!(d.rel_path.starts_with("pastes/"));
    assert!(d.rel_path.ends_with("__my-note.md.md"));
    assert!(d.meta_rel_path.starts_with("meta/"));
    assert_eq!(d.id.len(), 26);
    let parts: Vec<&str> = d.rel_path.split('/').collect();
    assert_eq!(parts.len(), 5);
    assert_eq!(parts[1].len(), 4);
    assert_eq!(parts[2].len(), 2);
    assert_eq!(parts[3].len(), 2);
    assert_eq!(parts[4], format!("{}__my-note.md.md", d.id));
}
