use vstd::prelude::*;

use subtle::ConstantTimeEq;

use crate::errors::{AppError, AppResult};
use crate::text::{chars_of, push_all, trim_chars, trim_seq};
use crate::types::{now_utc, Timestamp};

verus! {

/// Relies on `subtle`'s `ConstantTimeEq` for byte slices: it answers 1
/// exactly when both slices have the same length and the same bytes, which
/// for two UTF-8 strings means the same characters.
#[verifier::external_body]
pub(crate) fn ct_eq_str(a: &str, b: &str) -> (r: bool)
    ensures
        r == (a@ == b@),
{
    a.as_bytes().ct_eq(b.as_bytes()).into()
}

/// What an API key may be used for.
#[derive(Debug, Clone, Copy, PartialEq, Eq, Structural)]
pub enum Scope {
    ApiIndex,
    PasteCreate,
    PasteRead,
    RecentRead,
}

/// The scope string that grants a scope.
pub open spec fn scope_word(s: Scope) -> Seq<char> {
    match s {
        Scope::ApiIndex => "api:index"@,
        Scope::PasteCreate => "paste:create"@,
        Scope::PasteRead => "paste:read"@,
        Scope::RecentRead => "recent:read"@,
    }
}

impl Scope {
    /// The scope string that grants this scope.
    pub fn as_str(self) -> (r: &'static str)
        ensures
            r@ == scope_word(self),
    {
        match self {
            Scope::ApiIndex => "api:index",
            Scope::PasteCreate => "paste:create",
            Scope::PasteRead => "paste:read",
            Scope::RecentRead => "recent:read",
        }
    }
}

/// The keys of an API key file.
#[derive(Debug)]
pub struct ApiKeysFile {
    pub keys: Vec<ApiKeyEntry>,
}

/// One API key: an optional name, the secret, its scopes and an optional
/// ceiling of requests per minute.
#[derive(Debug)]
pub struct ApiKeyEntry {
    pub name: Option<String>,
    pub key: String,
    pub scopes: Vec<String>,
    pub max_requests_per_minute: Option<u32>,
}

/// The requests counted for one key in one wall-clock minute.
#[derive(Debug, Clone, Copy, PartialEq, Eq, Structural)]
pub struct RateWindow {
    pub minute_window: i128,
    pub count: u32,
}

/// The rate window of one key identity.
#[derive(Debug)]
pub struct RateCounter {
    pub key_id: String,
    pub window: RateWindow,
}

/// The configured API keys and their rate counters.
#[derive(Debug)]
pub struct ApiKeyStore {
    entries: Vec<ApiKeyEntry>,
    counters: Vec<RateCounter>,
}

impl Default for ApiKeyStore {
    /// A store without keys: every request is admitted.
    fn default() -> (r: ApiKeyStore)
        ensures
            r.entries_view().len() == 0,
            forall|id: Seq<char>| r.window(id) is None,
    {
        ApiKeyStore::new()
    }
}

/// An entry the store accepts: a key that is not blank, at least one scope
/// and no ceiling of zero.
pub open spec fn entry_ok(e: ApiKeyEntry) -> bool {
    &&& trim_seq(e.key@).len() > 0
    &&& e.scopes@.len() > 0
    &&& e.max_requests_per_minute != Some(0u32)
}

/// A set of entries the store accepts: each one acceptable, no key twice.
pub open spec fn entries_ok(es: Seq<ApiKeyEntry>) -> bool {
    &&& forall|i: int| 0 <= i < es.len() ==> entry_ok(#[trigger] es[i])
    &&& forall|i: int, j: int|
        0 <= i < j < es.len() ==> #[trigger] es[i].key@ != #[trigger] es[j].key@
}

/// The index of the first entry whose key is `k`.
pub open spec fn find_key(es: Seq<ApiKeyEntry>, k: Seq<char>) -> Option<int>
    decreases es.len(),
{
    if es.len() == 0 {
        None
    } else {
        match find_key(es.drop_last(), k) {
            Some(i) => Some(i),
            None => if es.last().key@ == k {
                Some(es.len() - 1)
            } else {
                None
            },
        }
    }
}

/// The window kept for identity `id`: that of the first counter of it.
pub open spec fn find_window(cs: Seq<RateCounter>, id: Seq<char>) -> Option<RateWindow>
    decreases cs.len(),
{
    if cs.len() == 0 {
        None
    } else if cs[0].key_id@ == id {
        Some(cs[0].window)
    } else {
        find_window(cs.drop_first(), id)
    }
}

/// The identity that a key is counted under: its name, else `key:` and the
/// first eight characters of the secret.
pub open spec fn key_identity(e: ApiKeyEntry) -> Seq<char> {
    match e.name {
        Some(n) => n@,
        None => "key:"@ + e.key@.take(if e.key@.len() < 8 {
            e.key@.len() as int
        } else {
            8
        }),
    }
}

/// Whether a key holds a scope: `*` or the scope's own string.
pub open spec fn grants(e: ApiKeyEntry, s: Scope) -> bool {
    exists|i: int|
        0 <= i < e.scopes@.len() && ((#[trigger] e.scopes@[i])@ == "*"@ || e.scopes@[i]@
            == scope_word(s))
}

/// The count that a window holds in minute `now`: its count if it is the
/// window of that minute, else zero.
pub open spec fn count_in(w: Option<RateWindow>, now: i128) -> u32 {
    match w {
        Some(x) => if x.minute_window == now {
            x.count
        } else {
            0
        },
        None => 0,
    }
}

proof fn lemma_find_window_update(cs: Seq<RateCounter>, i: int, c: RateCounter, id: Seq<char>)
    requires
        0 <= i < cs.len(),
        cs[i].key_id@ == c.key_id@,
        forall|j: int| 0 <= j < i ==> (#[trigger] cs[j]).key_id@ != cs[i].key_id@,
    ensures
        find_window(cs.update(i, c), id) == if id == c.key_id@ {
            Some(c.window)
        } else {
            find_window(cs, id)
        },
    decreases cs.len(),
{
    let u = cs.update(i, c);
    if i > 0 {
        assert(u[0] == cs[0]);
        assert(u.drop_first() =~= cs.drop_first().update(i - 1, c));
        assert forall|j: int| 0 <= j < i - 1 implies (#[trigger] cs.drop_first()[j]).key_id@
            != cs.drop_first()[i - 1].key_id@ by {
            assert(cs.drop_first()[j] == cs[j + 1]);
        }
        lemma_find_window_update(cs.drop_first(), i - 1, c, id);
        assert(cs[0].key_id@ != cs[i].key_id@);
    } else {
        assert(u.drop_first() =~= cs.drop_first());
    }
}

proof fn lemma_find_window_push(cs: Seq<RateCounter>, c: RateCounter, id: Seq<char>)
    requires
        find_window(cs, c.key_id@) is None,
    ensures
        find_window(cs.push(c), id) == if id == c.key_id@ {
            Some(c.window)
        } else {
            find_window(cs, id)
        },
    decreases cs.len(),
{
    let p = cs.push(c);
    if cs.len() > 0 {
        assert(p[0] == cs[0]);
        assert(cs[0].key_id@ != c.key_id@);
        assert(find_window(cs.drop_first(), c.key_id@) is None);
        assert(p.drop_first() =~= cs.drop_first().push(c));
        lemma_find_window_push(cs.drop_first(), c, id);
    } else {
        assert(p[0] == c);
        assert(p.drop_first() =~= Seq::<RateCounter>::empty());
        assert(find_window(p.drop_first(), id) is None);
        assert(find_window(cs, id) is None);
    }
}

proof fn lemma_find_key_none(es: Seq<ApiKeyEntry>, k: Seq<char>)
    ensures
        find_key(es, k) is None <==> forall|j: int| 0 <= j < es.len() ==> (#[trigger] es[j]).key@
            != k,
        find_key(es, k) is Some ==> 0 <= find_key(es, k)->0 < es.len() && es[find_key(
            es,
            k,
        )->0].key@ == k,
    decreases es.len(),
{
    if es.len() > 0 {
        lemma_find_key_none(es.drop_last(), k);
        assert(forall|j: int| 0 <= j < es.len() - 1 ==> es.drop_last()[j] == es[j]);
    }
}

impl ApiKeyStore {
    /// The configured entries.
    pub closed spec fn entries_view(&self) -> Seq<ApiKeyEntry> {
        self.entries@
    }

    /// The rate window kept for identity `id`.
    pub closed spec fn window(&self, id: Seq<char>) -> Option<RateWindow> {
        find_window(self.counters@, id)
    }

    /// A store without keys: every request is admitted.
    pub fn new() -> (r: ApiKeyStore)
        ensures
            r.entries_view().len() == 0,
            forall|id: Seq<char>| r.window(id) is None,
    {
        ApiKeyStore { entries: Vec::new(), counters: Vec::new() }
    }

    /// A store of the given keys, refused with `Internal` unless each key is
    /// non-blank with at least one scope and no ceiling of zero, and no key
    /// stands twice.
    pub fn from_entries(keys: Vec<ApiKeyEntry>) -> (r: AppResult<ApiKeyStore>)
        ensures
            r is Ok <==> entries_ok(keys@),
            r is Err ==> r->Err_0 is Internal,
            r is Ok ==> r->Ok_0.entries_view() == keys@,
            r is Ok ==> forall|id: Seq<char>| r->Ok_0.window(id) is None,
    {
        let mut i: usize = 0;
        while i < keys.len()
            invariant
                i <= keys@.len(),
                entries_ok(keys@.take(i as int)),
            decreases keys@.len() - i,
        {
            let e = &keys[i];
            if trim_chars(&chars_of(e.key.as_str())).len() == 0 {
                return Err(AppError::Internal("api key entry has empty key".to_string()));
            }
            if e.scopes.len() == 0 {
                return Err(AppError::Internal("api key must include at least one scope".to_string()));
            }
            match e.max_requests_per_minute {
                Some(m) => {
                    if m == 0 {
                        return Err(
                            AppError::Internal("api key has invalid max_requests_per_minute=0".to_string()),
                        );
                    }
                },
                None => {},
            }
            let mut j: usize = 0;
            while j < i
                invariant
                    i < keys@.len(),
                    j <= i,
                    forall|k: int| 0 <= k < j ==> keys@[k].key@ != keys@[i as int].key@,
                decreases i - j,
            {
                if ct_eq_str(keys[j].key.as_str(), keys[i].key.as_str()) {
                    assert(!entries_ok(keys@)) by {
                        assert(keys@[j as int].key@ == keys@[i as int].key@);
                    }
                    return Err(AppError::Internal("duplicate api key in api key file".to_string()));
                }
                j = j + 1;
            }
            assert(forall|k: int| 0 <= k < i ==> keys@.take(i as int)[k] == keys@[k]);
            assert(forall|k: int| 0 <= k <= i ==> keys@.take(i + 1)[k] == keys@[k]);
            i = i + 1;
        }
        assert(keys@.take(keys@.len() as int) =~= keys@);
        Ok(ApiKeyStore { entries: keys, counters: Vec::new() })
    }

    /// Whether any key is configured; without keys every request is admitted.
    pub fn enabled(&self) -> (r: bool)
        ensures
            r == (self.entries_view().len() > 0),
    {
        self.entries.len() > 0
    }

    /// The index of the entry whose key is `provided`, compared in constant
    /// time.
    pub fn resolve_key(&self, provided: &str) -> (r: Option<usize>)
        ensures
            r == match find_key(self.entries_view(), provided@) {
                Some(i) => Some(i as usize),
                None => None::<usize>,
            },
    {
        let mut i: usize = 0;
        while i < self.entries.len()
            invariant
                i <= self.entries@.len(),
                find_key(self.entries@.take(i as int), provided@) is None,
            decreases self.entries@.len() - i,
        {
            assert(self.entries@.take(i + 1).drop_last() =~= self.entries@.take(i as int));
            if ct_eq_str(self.entries[i].key.as_str(), provided) {
                proof {
                    lemma_prefix_find(self.entries@, i as int, provided@);
                }
                return Some(i);
            }
            i = i + 1;
        }
        assert(self.entries@.take(self.entries@.len() as int) =~= self.entries@);
        None
    }
}

/// The effect of one rate-limited request by entry `e` in minute `now`:
/// whether it is admitted, and the windows after it. Without a ceiling it is
/// admitted and nothing is counted. With one, the window of the key's
/// identity restarts at zero when the minute has changed; the request is
/// admitted and counted while the count is under the ceiling.
pub open spec fn rate_effect(
    old: ApiKeyStore,
    new: ApiKeyStore,
    e: ApiKeyEntry,
    now: i128,
    admitted: bool,
) -> bool {
    match e.max_requests_per_minute {
        None => admitted && forall|id: Seq<char>| new.window(id) == old.window(id),
        Some(limit) => {
            let id = key_identity(e);
            let c = count_in(old.window(id), now);
            &&& admitted == (c < limit)
            &&& new.window(id) == Some(
                RateWindow {
                    minute_window: now,
                    count: if c < limit {
                        (c + 1) as u32
                    } else {
                        c
                    },
                },
            )
            &&& forall|other: Seq<char>| other != id ==> new.window(other) == old.window(other)
        },
    }
}

/// The minute of a point in time: whole minutes since the epoch, rounded down.
pub open spec fn minute_of(t: Timestamp) -> i128 {
    if t.unix_nanos >= 0 {
        (t.unix_nanos / 60_000_000_000) as i128
    } else {
        (-((-(t.unix_nanos + 1)) / 60_000_000_000) - 1) as i128
    }
}

/// The minute of a point in time: whole minutes since the epoch, rounded down.
pub fn minute_of_exec(t: Timestamp) -> (r: i128)
    ensures
        r == minute_of(t),
{
    if t.unix_nanos >= 0 {
        t.unix_nanos / 60_000_000_000
    } else {
        let k: i128 = -(t.unix_nanos + 1);
        -(k / 60_000_000_000) - 1
    }
}

fn key_identity_exec(e: &ApiKeyEntry) -> (r: String)
    ensures
        r@ == key_identity(*e),
{
    match &e.name {
        Some(n) => n.clone(),
        None => {
            let cs = chars_of(e.key.as_str());
            let n: usize = if cs.len() < 8 {
                cs.len()
            } else {
                8
            };
            let mut out = String::new();
            push_all(&mut out, "key:");
            let mut i: usize = 0;
            while i < n
                invariant
                    n <= cs@.len(),
                    i <= n,
                    out@ == "key:"@ + cs@.take(i as int),
                decreases n - i,
            {
                out.push(cs[i]);
                i = i + 1;
                assert(cs@.take(i as int) =~= cs@.take(i - 1).push(cs@[i - 1]));
            }
            out
        },
    }
}

impl ApiKeyStore {
    /// Counts one request of entry `idx` in minute `now_minute` against its
    /// ceiling; over the ceiling it fails with `TooManyRequests`.
    pub fn enforce_rate_limit_at(&mut self, idx: usize, now_minute: i128) -> (r: AppResult<()>)
        requires
            idx < old(self).entries_view().len(),
        ensures
            final(self).entries_view() == old(self).entries_view(),
            rate_effect(*old(self), *final(self), old(self).entries_view()[idx as int], now_minute, r is Ok),
            r is Err ==> r->Err_0 is TooManyRequests,
    {
        let limit = match self.entries[idx].max_requests_per_minute {
            None => return Ok(()),
            Some(l) => l,
        };
        let id = key_identity_exec(&self.entries[idx]);
        let ghost e = self.entries@[idx as int];
        let mut i: usize = 0;
        let mut found = false;
        assert(self.counters@.skip(0) =~= self.counters@);
        while i < self.counters.len() && !found
            invariant
                i <= self.counters@.len(),
                found ==> i < self.counters@.len() && self.counters@[i as int].key_id@ == id@,
                forall|j: int| 0 <= j < i ==> (#[trigger] self.counters@[j]).key_id@ != id@,
                find_window(self.counters@.skip(i as int), id@) == find_window(self.counters@, id@),
            decreases self.counters@.len() - i + (if found { 0int } else { 1int }),
        {
            if ct_eq_str(self.counters[i].key_id.as_str(), id.as_str()) {
                found = true;
            } else {
                assert(self.counters@.skip(i as int).drop_first() =~= self.counters@.skip(i + 1));
                i = i + 1;
            }
        }
        let ghost before = self.counters@;
        if found {
            let w = self.counters[i].window;
            assert(self.counters@.skip(i as int)[0] == self.counters@[i as int]);
            assert(find_window(before, id@) == Some(w));
            let c: u32 = if w.minute_window == now_minute {
                w.count
            } else {
                0
            };
            let nw = RateWindow { minute_window: now_minute, count: if c < limit { c + 1 } else { c } };
            let key_id = self.counters[i].key_id.clone();
            let ghost cnew = RateCounter { key_id: key_id, window: nw };
            proof {
                lemma_find_window_update(before, i as int, cnew, id@);
            }
            self.counters.set(i, RateCounter { key_id, window: nw });
            proof {
                assert(self.counters@ == before.update(i as int, cnew));
            }
            assert(c == count_in(find_window(before, id@), now_minute));
            assert(find_window(self.counters@, id@) == Some(nw));
            assert forall|other: Seq<char>| other != id@ implies find_window(
                self.counters@,
                other,
            ) == find_window(before, other) by {
                lemma_find_window_update(before, i as int, cnew, other);
            }
            if c < limit {
                Ok(())
            } else {
                Err(AppError::TooManyRequests("api key rate limit exceeded".to_string()))
            }
        } else {
            let nw = RateWindow { minute_window: now_minute, count: if 0 < limit { 1 } else { 0 } };
            let ghost cnew = RateCounter { key_id: id, window: nw };
            proof {
                assert(self.counters@.skip(i as int) =~= Seq::<RateCounter>::empty());
                lemma_find_window_push(before, cnew, id@);
                assert(find_window(before, id@) is None);
            }
            self.counters.push(RateCounter { key_id: id, window: nw });
            assert forall|other: Seq<char>| other != id@ implies find_window(
                self.counters@,
                other,
            ) == find_window(before, other) by {
                lemma_find_window_push(before, cnew, other);
            }
            if 0 < limit {
                Ok(())
            } else {
                Err(AppError::TooManyRequests("api key rate limit exceeded".to_string()))
            }
        }
    }

    /// Counts one request of entry `idx` in the current minute.
    pub fn enforce_rate_limit(&mut self, idx: usize) -> (r: AppResult<()>)
        requires
            idx < old(self).entries_view().len(),
        ensures
            final(self).entries_view() == old(self).entries_view(),
            exists|now: i128|
                #[trigger] rate_effect(
                    *old(self),
                    *final(self),
                    old(self).entries_view()[idx as int],
                    now,
                    r is Ok,
                ),
            r is Err ==> r->Err_0 is TooManyRequests,
    {
        let (t, _) = now_utc();
        let now = minute_of_exec(t);
        self.enforce_rate_limit_at(idx, now)
    }
}

/// Whether the entry at `idx` holds `scope`.
fn entry_grants(store: &ApiKeyStore, idx: usize, scope: Scope) -> (r: bool)
    requires
        idx < store.entries_view().len(),
    ensures
        r == grants(store.entries_view()[idx as int], scope),
{
    let e = &store.entries[idx];
    let star = "*".to_string();
    let needed = scope.as_str().to_string();
    let mut i: usize = 0;
    while i < e.scopes.len()
        invariant
            i <= e.scopes@.len(),
            star@ == "*"@,
            needed@ == scope_word(scope),
            idx < store.entries_view().len(),
            *e == store.entries_view()[idx as int],
            forall|j: int|
                0 <= j < i ==> !((#[trigger] e.scopes@[j])@ == "*"@ || e.scopes@[j]@ == scope_word(
                    scope,
                )),
        decreases e.scopes@.len() - i,
    {
        if e.scopes[i].eq(&star) || e.scopes[i].eq(&needed) {
            assert(e.scopes@[i as int]@ == "*"@ || e.scopes@[i as int]@ == scope_word(scope));
            return true;
        }
        i = i + 1;
    }
    false
}

/// What the access gate answers, and how the key store changes, for one
/// request that carries a key (or none) and needs a scope.
pub open spec fn gate_effect(
    old: ApiKeyStore,
    new: ApiKeyStore,
    provided: Option<Seq<char>>,
    scope: Scope,
    now: i128,
    r: AppResult<()>,
) -> bool {
    let p = match provided {
        Some(v) => v,
        None => Seq::empty(),
    };
    &&& new.entries_view() == old.entries_view()
    &&& if old.entries_view().len() == 0 {
        r is Ok && new == old
    } else if p.len() == 0 || find_key(old.entries_view(), p) is None {
        r is Err && r->Err_0 is Unauthorized && new == old
    } else {
        let e = old.entries_view()[find_key(old.entries_view(), p)->0];
        if !grants(e, scope) {
            r is Err && r->Err_0 is Forbidden && new == old
        } else {
            &&& rate_effect(old, new, e, now, r is Ok)
            &&& r is Err ==> r->Err_0 is TooManyRequests
        }
    }
}

/// Admits or refuses a request in minute `now_minute`. Without configured
/// keys every request is admitted. Otherwise a missing or unknown key is
/// `Unauthorized`, a key without the scope (or `*`) is `Forbidden`, and a key
/// over its ceiling in this minute is `TooManyRequests`.
pub fn authorize_at(
    store: &mut ApiKeyStore,
    provided: Option<&str>,
    scope: Scope,
    now_minute: i128,
) -> (r: AppResult<()>)
    ensures
        gate_effect(*old(store), *final(store), crate::store::opt_str(provided), scope, now_minute, r),
{
    if !store.enabled() {
        return Ok(());
    }
    let p: &str = match provided {
        Some(v) => v,
        None => "",
    };
    proof {
        reveal_strlit("");
    }
    if p.unicode_len() == 0 {
        return Err(AppError::Unauthorized("missing or invalid API key".to_string()));
    }
    let idx = match store.resolve_key(p) {
        Some(i) => i,
        None => return Err(AppError::Unauthorized("missing or invalid API key".to_string())),
    };
    let n: usize = store.entries.len();
    proof {
        lemma_find_key_none(store.entries_view(), p@);
        let fk = find_key(store.entries_view(), p@);
        assert(fk == Some(idx as int));
        assert(p@ == match crate::store::opt_str(provided) {
            Some(v) => v,
            None => Seq::<char>::empty(),
        });
    }
    if !entry_grants(store, idx, scope) {
        return Err(AppError::Forbidden("api key lacks required scope".to_string()));
    }
    store.enforce_rate_limit_at(idx, now_minute)
}

/// Admits or refuses a request in the current minute, as `authorize_at`.
pub fn authorize(store: &mut ApiKeyStore, provided: Option<&str>, scope: Scope) -> (r: AppResult<()>)
    ensures
        exists|now: i128|
            #[trigger] gate_effect(
                *old(store),
                *final(store),
                crate::store::opt_str(provided),
                scope,
                now,
                r,
            ),
{
    let (t, _) = now_utc();
    let now = minute_of_exec(t);
    authorize_at(store, provided, scope, now)
}

proof fn lemma_prefix_find(es: Seq<ApiKeyEntry>, i: int, k: Seq<char>)
    requires
        0 <= i < es.len(),
        find_key(es.take(i), k) is None,
        es[i].key@ == k,
    ensures
        find_key(es, k) == Some(i),
    decreases es.len(),
{
    if es.len() > i + 1 {
        assert(es.drop_last().take(i) =~= es.take(i));
        lemma_prefix_find(es.drop_last(), i, k);
    } else {
        assert(es.drop_last() =~= es.take(i));
    }
}

/// A key with a ceiling of one request per minute: within one minute the
/// first request is admitted and the second refused, and in a later minute
/// a request is admitted again.
pub proof fn lemma_one_per_minute(
    s0: ApiKeyStore,
    s1: ApiKeyStore,
    s2: ApiKeyStore,
    s3: ApiKeyStore,
    e: ApiKeyEntry,
    now: i128,
    later: i128,
    first: bool,
    second: bool,
    third: bool,
)
    requires
        e.max_requests_per_minute == Some(1u32),
        count_in(s0.window(key_identity(e)), now) == 0,
        later != now,
        rate_effect(s0, s1, e, now, first),
        rate_effect(s1, s2, e, now, second),
        rate_effect(s2, s3, e, later, third),
    ensures
        first,
        !second,
        third,
{
}

} // verus!
