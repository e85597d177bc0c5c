use vstd::prelude::*;

use crate::digest::{content_hash_of, fingerprint_of};
use crate::errors::{AppError, AppResult};
use crate::text::{chars_of, push_all, string_of, trim_chars, trim_seq};
use crate::types::{CreatePasteResponse, IdempotencyRecord};

verus! {

/// The idempotency key of a request: the header value trimmed, if anything
/// is left.
pub open spec fn key_of(raw: Option<Seq<char>>) -> Option<Seq<char>> {
    match raw {
        Some(v) => if trim_seq(v).len() > 0 {
            Some(trim_seq(v))
        } else {
            None
        },
        None => None,
    }
}

/// The idempotency key of a request: the header value trimmed, if anything
/// is left.
pub fn normalize_idempotency_key(raw: Option<&str>) -> (r: Option<String>)
    ensures
        crate::digest::opt_view(r) == key_of(crate::store::opt_str(raw)),
{
    match raw {
        Some(v) => {
            let t = trim_chars(&chars_of(v));
            if t.len() > 0 {
                Some(string_of(&t))
            } else {
                None
            }
        },
        None => None,
    }
}

/// The file that holds the record of an idempotency key: the content hash
/// of the key's UTF-8 bytes and `.json`, so that any key gives a plain file
/// name.
pub open spec fn record_file_name(key: Seq<char>) -> Seq<char> {
    content_hash_of(vstd::utf8::encode_utf8(key)) + ".json"@
}

/// The file that holds the record of an idempotency key.
pub fn idempotency_file_name(key: &str) -> (r: String)
    ensures
        r@ == record_file_name(key@),
{
    let bytes = key.as_bytes_vec();
    let mut out = crate::digest::content_hash(&bytes);
    push_all(&mut out, ".json");
    out
}

/// What the ledger decides for a request under a key: with no record,
/// proceed (`Ok(None)`); with a record of the same fingerprint, replay its
/// response (`Ok(Some(..))`); with a record of another fingerprint, refuse
/// with `Conflict`.
pub open spec fn ledger_decision(
    existing: Option<IdempotencyRecord>,
    fingerprint: Seq<char>,
    r: AppResult<Option<CreatePasteResponse>>,
) -> bool {
    match existing {
        None => r == Ok::<Option<CreatePasteResponse>, AppError>(None),
        Some(rec) => if rec.request_fingerprint@ == fingerprint {
            r == Ok::<Option<CreatePasteResponse>, AppError>(Some(rec.response))
        } else {
            r is Err && r->Err_0 is Conflict
        },
    }
}

/// Compares a stored record, if any, with the fingerprint of a new request.
pub fn check_idempotency(existing: Option<IdempotencyRecord>, fingerprint: &str) -> (r: AppResult<
    Option<CreatePasteResponse>,
>)
    ensures
        ledger_decision(existing, fingerprint@, r),
{
    match existing {
        None => Ok(None),
        Some(rec) => {
            let f = fingerprint.to_string();
            if rec.request_fingerprint.eq(&f) {
                Ok(Some(rec.response))
            } else {
                Err(AppError::Conflict("idempotency key reuse with different payload".to_string()))
            }
        },
    }
}

/// The response to a create: the id, the stored path, the commit, and the
/// raw, view and metadata URLs of the paste.
pub open spec fn response_of(
    id: Seq<char>,
    path: Seq<char>,
    commit: Seq<char>,
    r: CreatePasteResponse,
) -> bool {
    &&& r.id@ == id
    &&& r.path@ == path
    &&& r.commit@ == commit
    &&& r.raw_url@ == "/api/v1/p/"@ + id + "/raw"@
    &&& r.view_url@ == "/p/"@ + id
    &&& r.meta_url@ == "/api/v1/p/"@ + id
}

/// Builds the response to a create.
pub fn create_response(id: &str, path: &str, commit: &str) -> (r: CreatePasteResponse)
    ensures
        response_of(id@, path@, commit@, r),
{
    let mut raw_url = String::new();
    push_all(&mut raw_url, "/api/v1/p/");
    push_all(&mut raw_url, id);
    push_all(&mut raw_url, "/raw");
    let mut view_url = String::new();
    push_all(&mut view_url, "/p/");
    push_all(&mut view_url, id);
    let mut meta_url = String::new();
    push_all(&mut meta_url, "/api/v1/p/");
    push_all(&mut meta_url, id);
    CreatePasteResponse {
        id: id.to_string(),
        path: path.to_string(),
        commit: commit.to_string(),
        raw_url,
        view_url,
        meta_url,
    }
}

/// Replay under one key: a request whose name, tag, content type and bytes
/// equal those of the request that made the record gets the recorded
/// response back, and nothing new is created; a request whose fingerprint
/// differs is refused with `Conflict`.
pub proof fn lemma_idempotent_replay(
    rec: IdempotencyRecord,
    name: Option<Seq<char>>,
    tag: Option<Seq<char>>,
    content_type: Option<Seq<char>>,
    data: Seq<u8>,
    name2: Option<Seq<char>>,
    tag2: Option<Seq<char>>,
    content_type2: Option<Seq<char>>,
    data2: Seq<u8>,
    r: AppResult<Option<CreatePasteResponse>>,
)
    requires
        rec.request_fingerprint@ == fingerprint_of(name, tag, content_type, data),
        ledger_decision(Some(rec), fingerprint_of(name2, tag2, content_type2, data2), r),
    ensures
        (name2, tag2, content_type2, data2) == (name, tag, content_type, data) ==> r
            == Ok::<Option<CreatePasteResponse>, AppError>(Some(rec.response)),
        fingerprint_of(name2, tag2, content_type2, data2) != fingerprint_of(
            name,
            tag,
            content_type,
            data,
        ) ==> r is Err && r->Err_0 is Conflict,
{
}

} // verus!
