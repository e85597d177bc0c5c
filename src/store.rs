use vstd::prelude::*;

use crate::auth::ct_eq_str;
use crate::digest::{content_hash, content_hash_of};
use crate::errors::{AppError, AppResult};
use crate::text::{
    ascii_lower_seq, chars_of, contains_chars, contains_seq, ends_with_seq, lower_chars,
    matches_at, push_all, string_of, trim_chars, trim_seq,
};
use crate::types::{
    IpAddress, clone_opt, join_path, join_path_exec, now_utc, CreatePasteInput, PasteDraft, PasteMeta,
    Timestamp, UtcDate,
};

verus! {

/// The longest slug that a paste name is cut to.
pub const MAX_SLUG_LEN: usize = 80;

/// A character that may stand in a slug unchanged.
pub open spec fn is_slug_char(c: char) -> bool {
    ('a' <= c && c <= 'z') || ('A' <= c && c <= 'Z') || ('0' <= c && c <= '9') || c == '.'
        || c == '_' || c == '-'
}

/// A character as it stands in a slug: itself if allowed, else `-`.
pub open spec fn slug_char(c: char) -> char {
    if is_slug_char(c) {
        c
    } else {
        '-'
    }
}

/// `s` with each run of `-` shortened to one `-`.
pub open spec fn collapse_dashes(s: Seq<char>) -> Seq<char>
    decreases s.len(),
{
    if s.len() == 0 {
        s
    } else {
        let r = collapse_dashes(s.drop_last());
        if s.last() == '-' && r.len() > 0 && r.last() == '-' {
            r
        } else {
            r.push(s.last())
        }
    }
}

/// `s` without leading `-`.
pub open spec fn trim_dash_start(s: Seq<char>) -> Seq<char>
    decreases s.len(),
{
    if s.len() > 0 && s[0] == '-' {
        trim_dash_start(s.skip(1))
    } else {
        s
    }
}

/// `s` without trailing `-`.
pub open spec fn trim_dash_end(s: Seq<char>) -> Seq<char>
    decreases s.len(),
{
    if s.len() > 0 && s.last() == '-' {
        trim_dash_end(s.drop_last())
    } else {
        s
    }
}

/// The slug used where a name leaves nothing.
pub open spec fn default_slug() -> Seq<char> {
    seq!['p', 'a', 's', 't', 'e']
}

/// A name that would reach outside the paste directory.
pub open spec fn name_rejected(name: Seq<char>) -> bool {
    contains_seq(name, seq!['/']) || contains_seq(name, seq!['\\']) || contains_seq(
        name,
        seq!['.', '.'],
    )
}

/// The slug of an accepted name: trimmed, each character outside
/// `[A-Za-z0-9._-]` turned into `-`, runs of `-` collapsed, `-` trimmed from
/// both ends, `paste` if nothing is left, and at most `MAX_SLUG_LEN` long.
pub open spec fn slug_of(name: Seq<char>) -> Seq<char> {
    let mapped = trim_seq(name).map_values(|c: char| slug_char(c));
    let core = trim_dash_end(trim_dash_start(collapse_dashes(mapped)));
    let filled = if core.len() == 0 {
        default_slug()
    } else {
        core
    };
    if filled.len() > 80 {
        filled.take(80)
    } else {
        filled
    }
}

/// Every character of `s` may stand in a slug.
pub open spec fn all_slug_chars(s: Seq<char>) -> bool {
    forall|i: int| 0 <= i < s.len() ==> is_slug_char(#[trigger] s[i])
}

/// No two neighbouring characters of `s` are both `-`.
pub open spec fn no_double_dash(s: Seq<char>) -> bool {
    forall|i: int| 0 <= i < s.len() - 1 ==> !(#[trigger] s[i] == '-' && s[i + 1] == '-')
}

fn is_slug_char_exec(c: char) -> (r: bool)
    ensures
        r == is_slug_char(c),
{
    ('a' <= c && c <= 'z') || ('A' <= c && c <= 'Z') || ('0' <= c && c <= '9') || c == '.'
        || c == '_' || c == '-'
}

/// Maps each character into the slug alphabet and collapses runs of `-`.
fn map_and_collapse(t: &[char]) -> (r: Vec<char>)
    ensures
        r@ == collapse_dashes(t@.map_values(|c: char| slug_char(c))),
{
    let ghost m = t@.map_values(|c: char| slug_char(c));
    let mut out: Vec<char> = Vec::new();
    let mut i: usize = 0;
    while i < t.len()
        invariant
            i <= t@.len(),
            m == t@.map_values(|c: char| slug_char(c)),
            out@ == collapse_dashes(m.take(i as int)),
        decreases t@.len() - i,
    {
        let c = if is_slug_char_exec(t[i]) {
            t[i]
        } else {
            '-'
        };
        assert(m.take(i + 1).drop_last() =~= m.take(i as int));
        assert(m.take(i + 1).last() == c);
        if !(c == '-' && out.len() > 0 && out[out.len() - 1] == '-') {
            out.push(c);
        }
        i = i + 1;
    }
    assert(m.take(t@.len() as int) =~= m);
    out
}

/// `s` without leading or trailing `-`.
fn trim_dashes(s: &[char]) -> (r: Vec<char>)
    ensures
        r@ == trim_dash_end(trim_dash_start(s@)),
{
    let mut lo: usize = 0;
    assert(s@.skip(0) =~= s@);
    while lo < s.len() && s[lo] == '-'
        invariant
            lo <= s@.len(),
            trim_dash_start(s@.skip(lo as int)) == trim_dash_start(s@),
        decreases s@.len() - lo,
    {
        assert(s@.skip(lo as int).skip(1) =~= s@.skip(lo + 1));
        lo = lo + 1;
    }
    let ghost t = s@.skip(lo as int);
    assert(trim_dash_start(t) == t);
    let mut hi: usize = s.len();
    assert(s@.subrange(lo as int, hi as int) =~= t);
    while hi > lo && s[hi - 1] == '-'
        invariant
            lo <= hi <= s@.len(),
            t == s@.skip(lo as int),
            trim_dash_end(s@.subrange(lo as int, hi as int)) == trim_dash_end(t),
        decreases hi,
    {
        assert(s@.subrange(lo as int, hi as int).drop_last() =~= s@.subrange(lo as int, hi - 1));
        hi = hi - 1;
    }
    let mut out: Vec<char> = Vec::new();
    let mut k: usize = lo;
    while k < hi
        invariant
            lo <= k <= hi <= s@.len(),
            out@ == s@.subrange(lo as int, k as int),
        decreases hi - k,
    {
        out.push(s[k]);
        k = k + 1;
        assert(out@ =~= s@.subrange(lo as int, k as int));
    }
    out
}

/// Turns a caller-supplied paste name into a file-system-safe slug.
///
/// A name holding `/`, `\` or `..` is refused with `BadRequest`.
pub fn sanitize_name(name: &str) -> (r: AppResult<String>)
    ensures
        r is Err <==> name_rejected(name@),
        r is Err ==> r->Err_0 is BadRequest,
        r is Ok ==> r->Ok_0@ == slug_of(name@),
{
    let cs = chars_of(name);
    let slash = ['/'];
    let backslash = ['\\'];
    let dots = ['.', '.'];
    assert(slash@ =~= seq!['/']);
    assert(backslash@ =~= seq!['\\']);
    assert(dots@ =~= seq!['.', '.']);
    if contains_chars(&cs, &slash) || contains_chars(&cs, &backslash) || contains_chars(
        &cs,
        &dots,
    ) {
        return Err(AppError::BadRequest("invalid name".to_string()));
    }
    let trimmed = trim_chars(&cs);
    let collapsed = map_and_collapse(&trimmed);
    let mut core = trim_dashes(&collapsed);
    if core.len() == 0 {
        core = vec!['p', 'a', 's', 't', 'e'];
        assert(core@ =~= default_slug());
    }
    if core.len() > MAX_SLUG_LEN {
        core.truncate(MAX_SLUG_LEN);
    }
    Ok(string_of(&core))
}


proof fn lemma_collapse_dashes(s: Seq<char>)
    ensures
        all_slug_chars(s) ==> all_slug_chars(collapse_dashes(s)),
        no_double_dash(collapse_dashes(s)),
    decreases s.len(),
{
    if s.len() > 0 {
        lemma_collapse_dashes(s.drop_last());
        let r = collapse_dashes(s.drop_last());
        if all_slug_chars(s) {
            assert forall|i: int| 0 <= i < s.drop_last().len() implies is_slug_char(
                #[trigger] s.drop_last()[i],
            ) by {
                assert(s.drop_last()[i] == s[i]);
            }
            assert(is_slug_char(s[s.len() - 1]));
        }
        if !(s.last() == '-' && r.len() > 0 && r.last() == '-') {
            let q = r.push(s.last());
            assert forall|i: int| 0 <= i < q.len() - 1 implies !(#[trigger] q[i] == '-' && q[i
                + 1] == '-') by {
                if i < r.len() - 1 {
                    assert(q[i] == r[i] && q[i + 1] == r[i + 1]);
                }
            }
        }
    }
}

proof fn lemma_trim_dash_start(s: Seq<char>)
    ensures
        all_slug_chars(s) ==> all_slug_chars(trim_dash_start(s)),
        no_double_dash(s) ==> no_double_dash(trim_dash_start(s)),
    decreases s.len(),
{
    if s.len() > 0 && s[0] == '-' {
        let t = s.skip(1);
        assert(forall|i: int| 0 <= i < t.len() ==> #[trigger] t[i] == s[i + 1]);
        lemma_trim_dash_start(t);
    }
}

proof fn lemma_trim_dash_end(s: Seq<char>)
    ensures
        all_slug_chars(s) ==> all_slug_chars(trim_dash_end(s)),
        no_double_dash(s) ==> no_double_dash(trim_dash_end(s)),
    decreases s.len(),
{
    if s.len() > 0 && s.last() == '-' {
        let t = s.drop_last();
        assert(forall|i: int| 0 <= i < t.len() ==> #[trigger] t[i] == s[i]);
        lemma_trim_dash_end(t);
    }
}

/// Every accepted name gives a slug made of `[A-Za-z0-9._-]` alone, with no
/// two `-` side by side, and at most `MAX_SLUG_LEN` characters long.
pub proof fn lemma_slug_well_formed(name: Seq<char>)
    requires
        !name_rejected(name),
    ensures
        all_slug_chars(slug_of(name)),
        no_double_dash(slug_of(name)),
        slug_of(name).len() <= MAX_SLUG_LEN,
{
    let mapped = trim_seq(name).map_values(|c: char| slug_char(c));
    assert(all_slug_chars(mapped));
    let c = collapse_dashes(mapped);
    lemma_collapse_dashes(mapped);
    lemma_trim_dash_start(c);
    lemma_trim_dash_end(trim_dash_start(c));
    let core = trim_dash_end(trim_dash_start(c));
    let filled = if core.len() == 0 {
        default_slug()
    } else {
        core
    };
    assert(all_slug_chars(filled));
    assert(no_double_dash(filled));
    if filled.len() > 80 {
        let t = filled.take(80);
        assert(forall|i: int| 0 <= i < t.len() ==> #[trigger] t[i] == filled[i]);
    }
}


/// The view of an optional string slice.
pub open spec fn opt_str(s: Option<&str>) -> Option<Seq<char>> {
    match s {
        Some(v) => Some(v@),
        None => None,
    }
}

/// A content type that declares markdown.
pub open spec fn md_by_type(content_type: Option<Seq<char>>) -> bool {
    match content_type {
        Some(c) => contains_seq(ascii_lower_seq(c), "text/markdown"@),
        None => false,
    }
}

/// A name with a markdown suffix.
pub open spec fn md_by_name(name: Option<Seq<char>>) -> bool {
    match name {
        Some(n) => ends_with_seq(ascii_lower_seq(n), ".md"@),
        None => false,
    }
}

/// The file extension of a paste: `md` when the content type or the name
/// says markdown, else `txt`.
pub open spec fn ext_of(name: Option<Seq<char>>, content_type: Option<Seq<char>>) -> Seq<char> {
    if md_by_type(content_type) || md_by_name(name) {
        "md"@
    } else {
        "txt"@
    }
}

fn markdown_hint(name: Option<&str>, content_type: Option<&str>) -> (r: bool)
    ensures
        r == (md_by_type(opt_str(content_type)) || md_by_name(opt_str(name))),
{
    let by_type = match content_type {
        Some(c) => {
            let lc = lower_chars(&chars_of(c));
            contains_chars(&lc, &chars_of("text/markdown"))
        },
        None => false,
    };
    let by_name = match name {
        Some(n) => {
            let ln = lower_chars(&chars_of(n));
            let suffix = chars_of(".md");
            suffix.len() <= ln.len() && matches_at(&ln, &suffix, ln.len() - suffix.len())
        },
        None => false,
    };
    by_type || by_name
}

/// Picks the stored file extension: `md` for markdown, else `txt`.
pub fn choose_ext(name: Option<&str>, content_type: Option<&str>) -> (r: &'static str)
    ensures
        r@ == ext_of(opt_str(name), opt_str(content_type)),
{
    if markdown_hint(name, content_type) {
        "md"
    } else {
        "txt"
    }
}

/// Whether a request's token is accepted: always without a configured
/// token, else exactly when the supplied token (empty if none) equals it.
pub open spec fn token_accepted(expected: Option<Seq<char>>, provided: Option<Seq<char>>) -> bool {
    match expected {
        None => true,
        Some(e) => match provided {
            Some(p) => p == e,
            None => e.len() == 0,
        },
    }
}

/// Checks a shared-secret token in constant time; a mismatch is
/// `Unauthorized`.
pub fn verify_token(expected: Option<&str>, provided: Option<&str>) -> (r: AppResult<()>)
    ensures
        r is Ok <==> token_accepted(opt_str(expected), opt_str(provided)),
        r is Err ==> r->Err_0 is Unauthorized,
{
    match expected {
        None => Ok(()),
        Some(exp) => {
            let got = match provided {
                Some(p) => p,
                None => "",
            };
            proof {
                reveal_strlit("");
            }
            assert(got@ == match provided {
                Some(p) => p@,
                None => Seq::<char>::empty(),
            });
            proof {
                if provided is None && exp@.len() == 0 {
                    assert(exp@ =~= got@);
                }
            }
            if ct_eq_str(exp, got) {
                Ok(())
            } else {
                Err(AppError::Unauthorized("missing or invalid token".to_string()))
            }
        },
    }
}

/// The decimal digit of a value below 10.
pub open spec fn digit_char(n: int) -> char {
    (48 + n) as char
}

/// A value below 100 in two digits.
pub open spec fn pad2(n: int) -> Seq<char> {
    seq![digit_char(n / 10), digit_char(n % 10)]
}

/// A value below 10000 in four digits.
pub open spec fn pad4(n: int) -> Seq<char> {
    seq![digit_char(n / 1000), digit_char(n / 100 % 10), digit_char(n / 10 % 10), digit_char(n % 10)]
}

/// The day bucket of a paste: `YYYY/MM/DD`, with a `-` before a negative year.
pub open spec fn date_path(d: UtcDate) -> Seq<char> {
    let y = if d.year < 0 {
        seq!['-'] + pad4(-d.year)
    } else {
        pad4(d.year as int)
    };
    y + seq!['/'] + pad2(d.month as int) + seq!['/'] + pad2(d.day as int)
}

fn digit(n: u32) -> (r: char)
    requires
        n < 10,
    ensures
        r == digit_char(n as int),
{
    ((48 + n) as u8) as char
}

fn date_path_exec(d: UtcDate) -> (r: String)
    requires
        d.wf(),
    ensures
        r@ == date_path(d),
{
    let mut out = String::new();
    let y: u32 = if d.year < 0 {
        out.push('-');
        (0 - d.year) as u32
    } else {
        d.year as u32
    };
    out.push(digit(y / 1000));
    out.push(digit(y / 100 % 10));
    out.push(digit(y / 10 % 10));
    out.push(digit(y % 10));
    out.push('/');
    let m = d.month as u32;
    out.push(digit(m / 10));
    out.push(digit(m % 10));
    out.push('/');
    let dd = d.day as u32;
    out.push(digit(dd / 10));
    out.push(digit(dd % 10));
    out
}

/// The name a paste is stored under when none is given.
pub open spec fn name_or_default(name: Option<String>) -> Seq<char> {
    match name {
        Some(n) => n@,
        None => default_slug(),
    }
}

/// The repository-relative path of a paste's content:
/// `pastes/<YYYY>/<MM>/<DD>/<id>__<slug>.<ext>`.
pub open spec fn paste_rel_path(d: UtcDate, id: Seq<char>, slug: Seq<char>, ext: Seq<char>) -> Seq<char> {
    "pastes/"@ + date_path(d) + "/"@ + id + "__"@ + slug + "."@ + ext
}

/// The repository-relative path of a paste's metadata: `meta/<id>.json`.
pub open spec fn meta_rel_path_of(id: Seq<char>) -> Seq<char> {
    "meta/"@ + id + ".json"@
}

/// The stored content type: markdown forced for `md`, else the declared one,
/// else plain text.
pub open spec fn stored_content_type(ext: Seq<char>, declared: Option<String>) -> Seq<char> {
    if ext == "md"@ {
        "text/markdown; charset=utf-8"@
    } else {
        match declared {
            Some(c) => c@,
            None => "text/plain; charset=utf-8"@,
        }
    }
}

/// The commit subject: the caller's message if given, else
/// `paste: <id> <slug>` with ` [tag:<tag>]` after it when tagged.
pub open spec fn commit_subject(
    id: Seq<char>,
    slug: Seq<char>,
    tag: Option<String>,
    msg: Option<String>,
) -> Seq<char> {
    match msg {
        Some(m) => m@,
        None => {
            let base = "paste: "@ + id + " "@ + slug;
            match tag {
                Some(t) => base + " [tag:"@ + t@ + "]"@,
                None => base,
            }
        },
    }
}

/// `d` is the draft of `input` below `repo`, under identifier `id`, created
/// at `at` on day `day`.
pub open spec fn draft_of(
    repo: Seq<char>,
    input: CreatePasteInput,
    id: Seq<char>,
    at: Timestamp,
    day: UtcDate,
    d: PasteDraft,
) -> bool {
    let slug = slug_of(name_or_default(input.name));
    let ext = ext_of(crate::digest::opt_view(input.name), crate::digest::opt_view(input.content_type));
    let rel = paste_rel_path(day, id, slug, ext);
    let ct = stored_content_type(ext, input.content_type);
    &&& d.id@ == id
    &&& d.rel_path@ == rel
    &&& d.abs_path@ == join_path(repo, rel)
    &&& d.meta_rel_path@ == meta_rel_path_of(id)
    &&& d.meta_path@ == join_path(repo, meta_rel_path_of(id))
    &&& d.content_type@ == ct
    &&& d.size == input.bytes@.len()
    &&& d.sha256@ == content_hash_of(input.bytes@)
    &&& d.subject@ == commit_subject(id, slug, input.tag, input.msg)
    &&& d.content@ == input.bytes@
    &&& d.meta.id@ == id
    &&& d.meta.created_at == at
    &&& d.meta.path@ == rel
    &&& d.meta.size == input.bytes@.len()
    &&& d.meta.content_type@ == ct
    &&& d.meta.commit@.len() == 0
    &&& d.meta.sha256@ == content_hash_of(input.bytes@)
    &&& d.meta.tag == input.tag
    &&& d.meta.client_ip == input.client_ip
    &&& d.meta.user_agent == input.user_agent
}

/// Lays out the draft of a paste under a given identifier and creation time.
///
/// Fails with `BadRequest` exactly when the name is refused.
pub fn build_paste_draft_at(
    repo: &str,
    input: CreatePasteInput,
    id: String,
    at: Timestamp,
    day: UtcDate,
) -> (r: AppResult<PasteDraft>)
    requires
        day.wf(),
    ensures
        r is Err <==> name_rejected(name_or_default(input.name)),
        r is Err ==> r->Err_0 is BadRequest,
        r is Ok ==> draft_of(repo@, input, id@, at, day, r->Ok_0),
{
    let name: &str = match &input.name {
        Some(n) => n.as_str(),
        None => "paste",
    };
    proof {
        reveal_strlit("paste");
        assert("paste"@ =~= default_slug());
    }
    let slug = match sanitize_name(name) {
        Ok(s) => s,
        Err(e) => return Err(e),
    };
    let name_opt: Option<&str> = match &input.name {
        Some(n) => Some(n.as_str()),
        None => None,
    };
    let ct_opt: Option<&str> = match &input.content_type {
        Some(c) => Some(c.as_str()),
        None => None,
    };
    let ext = choose_ext(name_opt, ct_opt);
    let mut rel_path = String::new();
    push_all(&mut rel_path, "pastes/");
    push_all(&mut rel_path, date_path_exec(day).as_str());
    push_all(&mut rel_path, "/");
    push_all(&mut rel_path, id.as_str());
    push_all(&mut rel_path, "__");
    push_all(&mut rel_path, slug.as_str());
    push_all(&mut rel_path, ".");
    push_all(&mut rel_path, ext);
    let abs_path = join_path_exec(repo, rel_path.as_str());
    let sha256 = content_hash(&input.bytes);
    let is_md = markdown_hint(name_opt, ct_opt);
    proof {
        reveal_strlit("md");
        reveal_strlit("txt");
    }
    let content_type: String = if is_md {
        "text/markdown; charset=utf-8".to_string()
    } else {
        match &input.content_type {
            Some(c) => c.clone(),
            None => "text/plain; charset=utf-8".to_string(),
        }
    };
    let subject: String = match &input.msg {
        Some(m) => m.clone(),
        None => {
            let mut s = String::new();
            push_all(&mut s, "paste: ");
            push_all(&mut s, id.as_str());
            push_all(&mut s, " ");
            push_all(&mut s, slug.as_str());
            match &input.tag {
                Some(t) => {
                    push_all(&mut s, " [tag:");
                    push_all(&mut s, t.as_str());
                    push_all(&mut s, "]");
                },
                None => {},
            }
            s
        },
    };
    let mut meta_rel_path = String::new();
    push_all(&mut meta_rel_path, "meta/");
    push_all(&mut meta_rel_path, id.as_str());
    push_all(&mut meta_rel_path, ".json");
    let meta_path = join_path_exec(repo, meta_rel_path.as_str());
    let size = input.bytes.len();
    let meta = PasteMeta {
        id: id.clone(),
        created_at: at,
        path: rel_path.clone(),
        size,
        content_type: content_type.clone(),
        commit: String::new(),
        sha256: sha256.clone(),
        tag: clone_opt(&input.tag),
        client_ip: input.client_ip,
        user_agent: clone_opt(&input.user_agent),
    };
    let d = PasteDraft {
        id,
        rel_path,
        abs_path,
        meta_path,
        meta_rel_path,
        content_type,
        size,
        sha256,
        subject,
        meta,
        content: input.bytes,
    };
    Ok(d)
}

/// Relies on `ulid::Ulid::new` and its `to_string`: a fresh identifier of
/// 26 characters, sortable by creation time. Its value depends on the clock
/// and on a random source.
#[verifier::external_body]
fn new_paste_id() -> (r: String)
    ensures
        r@.len() == 26,
{
    ulid::Ulid::new().to_string()
}

/// Lays out the draft of a paste under a fresh identifier, created now.
///
/// Fails with `BadRequest` exactly when the name is refused. The caller
/// writes `content` to `abs_path` and the metadata to `meta_path`.
pub fn build_paste_draft(repo: &str, input: CreatePasteInput) -> (r: AppResult<PasteDraft>)
    ensures
        r is Err <==> name_rejected(name_or_default(input.name)),
        r is Err ==> r->Err_0 is BadRequest,
        r is Ok ==> exists|day: UtcDate|
            day.wf() && #[trigger] draft_of(
                repo@,
                input,
                r->Ok_0.id@,
                r->Ok_0.meta.created_at,
                day,
                r->Ok_0,
            ),
{
    let id = new_paste_id();
    let (at, day) = now_utc();
    let r = build_paste_draft_at(repo, input, id, at, day);
    proof {
        if r is Ok {
            assert(draft_of(repo@, input, r->Ok_0.id@, r->Ok_0.meta.created_at, day, r->Ok_0));
        }
    }
    r
}


/// An address block: an address and the length of its network prefix.
#[derive(Debug, Clone, Copy, PartialEq, Eq, Structural)]
pub struct IpNetwork {
    pub addr: IpAddress,
    pub prefix_len: u8,
}

impl IpNetwork {
    /// A prefix no longer than the address.
    pub open spec fn wf(self) -> bool {
        match self.addr {
            IpAddress::V4(_) => self.prefix_len <= 32,
            IpAddress::V6(_) => self.prefix_len <= 128,
        }
    }

    /// An IPv4 block; `None` if the prefix is longer than 32 bits.
    pub fn v4(addr: u32, prefix_len: u8) -> (r: Option<IpNetwork>)
        ensures
            r is Some <==> prefix_len <= 32,
            r is Some ==> r->0 == (IpNetwork { addr: IpAddress::V4(addr), prefix_len }),
    {
        if prefix_len <= 32 {
            Some(IpNetwork { addr: IpAddress::V4(addr), prefix_len })
        } else {
            None
        }
    }

    /// An IPv6 block; `None` if the prefix is longer than 128 bits.
    pub fn v6(addr: u128, prefix_len: u8) -> (r: Option<IpNetwork>)
        ensures
            r is Some <==> prefix_len <= 128,
            r is Some ==> r->0 == (IpNetwork { addr: IpAddress::V6(addr), prefix_len }),
    {
        if prefix_len <= 128 {
            Some(IpNetwork { addr: IpAddress::V6(addr), prefix_len })
        } else {
            None
        }
    }
}

/// Whether a block holds an address: the same family and the same leading
/// `prefix_len` bits.
pub open spec fn net_contains(n: IpNetwork, a: IpAddress) -> bool {
    match (n.addr, a) {
        (IpAddress::V4(x), IpAddress::V4(y)) => n.prefix_len == 0 || (n.prefix_len <= 32 && (x
            >> ((32 - n.prefix_len) as u32)) == (y >> ((32 - n.prefix_len) as u32))),
        (IpAddress::V6(x), IpAddress::V6(y)) => n.prefix_len == 0 || (n.prefix_len <= 128 && (x
            >> ((128 - n.prefix_len) as u32)) == (y >> ((128 - n.prefix_len) as u32))),
        _ => false,
    }
}

/// Whether a block holds an address.
pub fn contains_ip(n: &IpNetwork, a: IpAddress) -> (r: bool)
    ensures
        r == net_contains(*n, a),
{
    match (n.addr, a) {
        (IpAddress::V4(x), IpAddress::V4(y)) => {
            if n.prefix_len == 0 {
                true
            } else if n.prefix_len <= 32 {
                let sh: u32 = (32 - n.prefix_len) as u32;
                (x >> sh) == (y >> sh)
            } else {
                false
            }
        },
        (IpAddress::V6(x), IpAddress::V6(y)) => {
            if n.prefix_len == 0 {
                true
            } else if n.prefix_len <= 128 {
                let sh: u32 = (128 - n.prefix_len) as u32;
                (x >> sh) == (y >> sh)
            } else {
                false
            }
        },
        _ => false,
    }
}

/// Whether the client passes the allow-list: always with an empty list,
/// else when its address is known and some block holds it.
pub open spec fn cidr_allowed(allow: Seq<IpNetwork>, ip: Option<IpAddress>) -> bool {
    allow.len() == 0 || (ip is Some && exists|i: int|
        0 <= i < allow.len() && net_contains(#[trigger] allow[i], ip->0))
}

/// Checks the client's address against the allow-list of the write path;
/// refusal is `Forbidden`.
pub fn check_cidr(allow: &[IpNetwork], ip: Option<IpAddress>) -> (r: AppResult<()>)
    ensures
        r is Ok <==> cidr_allowed(allow@, ip),
        r is Err ==> r->Err_0 is Forbidden,
{
    if allow.len() == 0 {
        return Ok(());
    }
    let addr = match ip {
        Some(a) => a,
        None => return Err(AppError::Forbidden("client IP unavailable".to_string())),
    };
    let mut i: usize = 0;
    while i < allow.len()
        invariant
            i <= allow@.len(),
            ip == Some(addr),
            forall|j: int| 0 <= j < i ==> !net_contains(#[trigger] allow@[j], addr),
        decreases allow@.len() - i,
    {
        if contains_ip(&allow[i], addr) {
            assert(net_contains(allow@[i as int], ip->0));
            return Ok(());
        }
        i = i + 1;
    }
    Err(AppError::Forbidden("client IP not in allowlist".to_string()))
}

/// Refuses a body larger than the configured ceiling with `TooLarge`.
pub fn check_size(len: usize, max_bytes: usize) -> (r: AppResult<()>)
    ensures
        r is Ok <==> len <= max_bytes,
        r is Err ==> r->Err_0 is TooLarge,
{
    if len > max_bytes {
        Err(AppError::TooLarge("request body exceeds max-bytes".to_string()))
    } else {
        Ok(())
    }
}

/// How many records a listing returns: 50 unless asked, never above 500.
pub fn recent_limit(n: Option<usize>) -> (r: usize)
    ensures
        r == match n {
            Some(v) => if v < 500 {
                v
            } else {
                500
            },
            None => 50,
        },
{
    match n {
        Some(v) => if v < 500 {
            v
        } else {
            500
        },
        None => 50,
    }
}

/// Whether a stored paste is shown rendered as markdown: its content type
/// mentions markdown or its path ends in `.md`.
pub fn renders_as_markdown(content_type: &str, path: &str) -> (r: bool)
    ensures
        r == (contains_seq(content_type@, "markdown"@) || ends_with_seq(path@, ".md"@)),
{
    let ct = chars_of(content_type);
    let p = chars_of(path);
    let suffix = chars_of(".md");
    contains_chars(&ct, &chars_of("markdown")) || (suffix.len() <= p.len() && matches_at(
        &p,
        &suffix,
        p.len() - suffix.len(),
    ))
}


/// Round-trip integrity: the metadata of a draft records the content hash of
/// exactly the bytes that the draft writes, at the path the metadata names
/// below the repository, and the commit of the draft stages that path.
pub proof fn lemma_draft_integrity(
    repo: Seq<char>,
    input: CreatePasteInput,
    id: Seq<char>,
    at: Timestamp,
    day: UtcDate,
    d: PasteDraft,
)
    requires
        draft_of(repo, input, id, at, day, d),
    ensures
        d.content@ == input.bytes@,
        d.meta.sha256@ == content_hash_of(d.content@),
        d.meta.size == d.content@.len(),
        d.abs_path@ == join_path(repo, d.meta.path@),
        d.meta.path@ == d.rel_path@,
        d.meta_path@ == join_path(repo, meta_rel_path_of(d.meta.id@)),
{
}

} // verus!
