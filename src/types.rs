use vstd::prelude::*;

use crate::config::PushMode;
use crate::text::push_all;

verus! {

/// A point in time, in nanoseconds since the Unix epoch (UTC).
#[derive(Debug, Clone, Copy, PartialEq, Eq, Structural)]
pub struct Timestamp {
    pub unix_nanos: i128,
}

/// A calendar day in UTC.
#[derive(Debug, Clone, Copy, PartialEq, Eq, Structural)]
pub struct UtcDate {
    pub year: i32,
    pub month: u8,
    pub day: u8,
}

impl UtcDate {
    /// A real calendar day as the time library gives it.
    pub open spec fn wf(self) -> bool {
        -9999 <= self.year <= 9999 && 1 <= self.month <= 12 && 1 <= self.day <= 31
    }
}

/// An IP address: four bytes, or eight 16-bit groups.
#[derive(Debug, Clone, Copy, PartialEq, Eq, Structural)]
pub enum IpAddress {
    V4(u32),
    V6(u128),
}

/// The permanent record of one paste.
#[derive(Debug)]
pub struct PasteMeta {
    pub id: String,
    pub created_at: Timestamp,
    pub path: String,
    pub size: usize,
    pub content_type: String,
    pub commit: String,
    pub sha256: String,
    pub tag: Option<String>,
    pub client_ip: Option<IpAddress>,
    pub user_agent: Option<String>,
}

/// What a successful create returns to the client.
#[derive(Debug)]
pub struct CreatePasteResponse {
    pub id: String,
    pub path: String,
    pub commit: String,
    pub raw_url: String,
    pub view_url: String,
    pub meta_url: String,
}

/// A create request, as the transport layer hands it over.
#[derive(Debug)]
pub struct CreatePasteInput {
    pub name: Option<String>,
    pub msg: Option<String>,
    pub tag: Option<String>,
    pub content_type: Option<String>,
    pub bytes: Vec<u8>,
    pub client_ip: Option<IpAddress>,
    pub user_agent: Option<String>,
}

/// The files of one paste, laid out but not yet committed.
#[derive(Debug)]
pub struct PasteDraft {
    pub id: String,
    pub rel_path: String,
    pub abs_path: String,
    pub meta_path: String,
    pub meta_rel_path: String,
    pub content_type: String,
    pub size: usize,
    pub sha256: String,
    pub subject: String,
    pub meta: PasteMeta,
    /// The bytes to be written at `abs_path`.
    pub content: Vec<u8>,
}

/// The body of an error response.
#[derive(Debug)]
pub struct ApiErrorBody {
    pub error: String,
    pub message: String,
}

/// What the idempotency ledger keeps for one key.
#[derive(Debug)]
pub struct IdempotencyRecord {
    pub request_fingerprint: String,
    pub response: CreatePasteResponse,
}

/// One line of a listing of recent pastes.
#[derive(Debug)]
pub struct RecentItem {
    pub id: String,
    pub created_at: Timestamp,
    pub path: String,
    pub commit: String,
    pub tag: Option<String>,
    pub size: usize,
    pub content_type: String,
}

/// The outcome of committing a draft.
#[derive(Debug)]
pub struct GitCommitResult {
    pub commit: String,
    pub pushed: bool,
    pub push_error: Option<String>,
}

/// The directories and files below the storage root.
#[derive(Debug)]
pub struct AppPaths {
    pub base: String,
    pub repo: String,
    pub run: String,
    pub tmp: String,
    pub git_lock: String,
    pub idempotency: String,
}

/// `child` placed below the directory `dir`.
pub open spec fn join_path(dir: Seq<char>, child: Seq<char>) -> Seq<char> {
    if dir.len() == 0 || dir.last() == '/' {
        dir + child
    } else {
        dir + seq!['/'] + child
    }
}

/// `child` placed below the directory `dir`.
pub fn join_path_exec(dir: &str, child: &str) -> (r: String)
    ensures
        r@ == join_path(dir@, child@),
{
    let mut out = String::new();
    push_all(&mut out, dir);
    let n = dir.unicode_len();
    if n > 0 && dir.get_char(n - 1) != '/' {
        out.push('/');
    }
    push_all(&mut out, child);
    out
}

impl AppPaths {
    /// The layout below a storage root: `repo`, `run`, `tmp`, and in `run`
    /// the git lock file and the idempotency ledger.
    pub fn from_base(base: String) -> (r: AppPaths)
        ensures
            r.base@ == base@,
            r.repo@ == join_path(base@, "repo"@),
            r.run@ == join_path(base@, "run"@),
            r.tmp@ == join_path(base@, "tmp"@),
            r.git_lock@ == join_path(join_path(base@, "run"@), "git.lock"@),
            r.idempotency@ == join_path(join_path(base@, "run"@), "idempotency"@),
    {
        let repo = join_path_exec(base.as_str(), "repo");
        let run = join_path_exec(base.as_str(), "run");
        let tmp = join_path_exec(base.as_str(), "tmp");
        let git_lock = join_path_exec(run.as_str(), "git.lock");
        let idempotency = join_path_exec(run.as_str(), "idempotency");
        AppPaths { base, repo, run, tmp, git_lock, idempotency }
    }
}

/// Relies on `time::OffsetDateTime::now_utc`: the current instant and its
/// calendar day in UTC. Both depend on the clock; the day is a real one of
/// the range that `time` supports without its large-dates feature.
#[verifier::external_body]
pub(crate) fn now_utc() -> (r: (Timestamp, UtcDate))
    ensures
        r.1.wf(),
{
    let now = time::OffsetDateTime::now_utc();
    let ts = Timestamp { unix_nanos: now.unix_timestamp_nanos() };
    (ts, UtcDate { year: now.year(), month: u8::from(now.month()), day: now.day() })
}

/// Clones an optional string.
pub fn clone_opt(s: &Option<String>) -> (r: Option<String>)
    ensures
        r == *s,
{
    match s {
        Some(v) => Some(v.clone()),
        None => None,
    }
}

/// The configuration word of a push mode.
pub fn push_mode_label(v: PushMode) -> (r: &'static str)
    ensures
        r@ == crate::config::push_mode_word(v),
{
    v.label()
}

} // verus!
