use vstd::prelude::*;

use crate::text::{chars_of, push_all, string_of};
use crate::types::PasteMeta;

verus! {

/// The short form of a commit id: its first twelve characters.
pub open spec fn short_commit_of(full: Seq<char>) -> Seq<char> {
    if full.len() <= 12 {
        full
    } else {
        full.take(12)
    }
}

/// The short form of a commit id: its first twelve characters.
pub fn short_commit(full: &str) -> (r: String)
    ensures
        r@ == short_commit_of(full@),
{
    let cs = chars_of(full);
    let n: usize = if cs.len() <= 12 {
        cs.len()
    } else {
        12
    };
    let mut out: Vec<char> = Vec::new();
    let mut i: usize = 0;
    while i < n
        invariant
            n <= cs@.len(),
            i <= n,
            out@ == cs@.take(i as int),
        decreases n - i,
    {
        out.push(cs[i]);
        i = i + 1;
        assert(out@ =~= cs@.take(i as int));
    }
    assert(cs@.len() <= 12 ==> cs@.take(n as int) =~= cs@);
    string_of(&out)
}

/// Whether a record still lacks its commit id.
pub fn needs_hydration(meta: &PasteMeta) -> (r: bool)
    ensures
        r == (meta.commit@.len() == 0),
{
    meta.commit.as_str().unicode_len() == 0
}

/// Fills a missing commit id with the short form of the last commit that
/// touched the record's path; a record that has one is returned unchanged.
pub fn hydrate_commit(meta: PasteMeta, last_commit: &str) -> (r: PasteMeta)
    ensures
        r.commit@ == if meta.commit@.len() == 0 {
            short_commit_of(last_commit@)
        } else {
            meta.commit@
        },
        r.id == meta.id,
        r.created_at == meta.created_at,
        r.path == meta.path,
        r.size == meta.size,
        r.content_type == meta.content_type,
        r.sha256 == meta.sha256,
        r.tag == meta.tag,
        r.client_ip == meta.client_ip,
        r.user_agent == meta.user_agent,
{
    let mut meta = meta;
    if needs_hydration(&meta) {
        meta.commit = short_commit(last_commit);
    }
    meta
}

/// The repository-relative path of the metadata record of `id`.
pub fn meta_rel_path(id: &str) -> (r: String)
    ensures
        r@ == crate::store::meta_rel_path_of(id@),
{
    let mut out = String::new();
    push_all(&mut out, "meta/");
    push_all(&mut out, id);
    push_all(&mut out, ".json");
    out
}

/// Whether a record passes the tag filter: any record without a filter,
/// else those whose tag is exactly the filter.
pub open spec fn tag_matches(m: PasteMeta, tag: Option<Seq<char>>) -> bool {
    match tag {
        None => true,
        Some(t) => m.tag is Some && m.tag->0@ == t,
    }
}

/// The records that pass the tag filter, in their order.
pub open spec fn filter_tag(s: Seq<PasteMeta>, tag: Option<Seq<char>>) -> Seq<PasteMeta>
    decreases s.len(),
{
    if s.len() == 0 {
        s
    } else if tag_matches(s.last(), tag) {
        filter_tag(s.drop_last(), tag).push(s.last())
    } else {
        filter_tag(s.drop_last(), tag)
    }
}

/// The creation time of a record, as an integer.
pub open spec fn key_of(m: PasteMeta) -> int {
    m.created_at.unix_nanos as int
}

/// `m` placed in `sorted` (newest first) after every record at least as new.
pub open spec fn insert_desc(sorted: Seq<PasteMeta>, m: PasteMeta) -> Seq<PasteMeta>
    decreases sorted.len(),
{
    if sorted.len() == 0 {
        seq![m]
    } else if key_of(sorted.last()) >= key_of(m) {
        sorted.push(m)
    } else {
        insert_desc(sorted.drop_last(), m).push(sorted.last())
    }
}

/// The records ordered newest first; records created at the same instant
/// keep their order.
pub open spec fn sort_desc(s: Seq<PasteMeta>) -> Seq<PasteMeta>
    decreases s.len(),
{
    if s.len() == 0 {
        s
    } else {
        insert_desc(sort_desc(s.drop_last()), s.last())
    }
}

/// The listing of recent records: those passing the tag filter, newest
/// first, at most `n` of them.
pub open spec fn recent_of(s: Seq<PasteMeta>, n: nat, tag: Option<Seq<char>>) -> Seq<PasteMeta> {
    let t = sort_desc(filter_tag(s, tag));
    if t.len() > n {
        t.take(n as int)
    } else {
        t
    }
}

/// Records newest first.
pub open spec fn is_desc(s: Seq<PasteMeta>) -> bool {
    forall|i: int, j: int| 0 <= i < j < s.len() ==> key_of(#[trigger] s[i]) >= key_of(#[trigger] s[j])
}

proof fn lemma_insert_at(sorted: Seq<PasteMeta>, m: PasteMeta, pos: int)
    requires
        0 <= pos <= sorted.len(),
        forall|k: int| pos <= k < sorted.len() ==> key_of(#[trigger] sorted[k]) < key_of(m),
        pos == 0 || key_of(sorted[pos - 1]) >= key_of(m),
    ensures
        insert_desc(sorted, m) == sorted.take(pos) + seq![m] + sorted.skip(pos),
    decreases sorted.len(),
{
    if sorted.len() == 0 {
        assert(sorted.take(pos) + seq![m] + sorted.skip(pos) =~= seq![m]);
    } else if pos == sorted.len() {
        assert(sorted.take(pos) + seq![m] + sorted.skip(pos) =~= sorted.push(m));
    } else {
        let d = sorted.drop_last();
        assert forall|k: int| pos <= k < d.len() implies key_of(#[trigger] d[k]) < key_of(m) by {
            assert(d[k] == sorted[k]);
        }
        lemma_insert_at(d, m, pos);
        assert(d.take(pos) + seq![m] + d.skip(pos) + seq![sorted.last()] =~= sorted.take(pos)
            + seq![m] + sorted.skip(pos));
    }
}

proof fn lemma_insert_desc_sorted(sorted: Seq<PasteMeta>, m: PasteMeta)
    requires
        is_desc(sorted),
    ensures
        is_desc(insert_desc(sorted, m)),
        insert_desc(sorted, m).len() == sorted.len() + 1,
        forall|k: int|
            0 <= k < insert_desc(sorted, m).len() ==> (#[trigger] insert_desc(sorted, m)[k] == m
                || sorted.contains(insert_desc(sorted, m)[k])),
    decreases sorted.len(),
{
    if sorted.len() > 0 && key_of(sorted.last()) < key_of(m) {
        let d = sorted.drop_last();
        assert(is_desc(d)) by {
            assert forall|i: int, j: int| 0 <= i < j < d.len() implies key_of(#[trigger] d[i])
                >= key_of(#[trigger] d[j]) by {
                assert(d[i] == sorted[i] && d[j] == sorted[j]);
            }
        }
        lemma_insert_desc_sorted(d, m);
        let x = insert_desc(d, m);
        assert forall|k: int| 0 <= k < x.len() implies key_of(#[trigger] x[k]) >= key_of(
            sorted.last(),
        ) by {
            if x[k] != m {
                let w = choose|w: int| 0 <= w < d.len() && d[w] == x[k];
                assert(sorted[w] == d[w]);
            }
        }
        assert forall|k: int| 0 <= k < x.push(sorted.last()).len() implies (#[trigger] x.push(
            sorted.last(),
        )[k] == m || sorted.contains(x.push(sorted.last())[k])) by {
            if k < x.len() {
                if x[k] != m {
                    let w = choose|w: int| 0 <= w < d.len() && d[w] == x[k];
                    assert(sorted[w] == d[w]);
                }
            } else {
                assert(sorted[sorted.len() - 1] == sorted.last());
            }
        }
    } else if sorted.len() > 0 {
        assert forall|k: int| 0 <= k < sorted.push(m).len() implies (#[trigger] sorted.push(m)[k]
            == m || sorted.contains(sorted.push(m)[k])) by {
            if k < sorted.len() {
                assert(sorted[k] == sorted.push(m)[k]);
            }
        }
    }
}

proof fn lemma_insert_desc_multiset(sorted: Seq<PasteMeta>, m: PasteMeta)
    ensures
        insert_desc(sorted, m).to_multiset() =~= sorted.to_multiset().insert(m),
    decreases sorted.len(),
{
    broadcast use vstd::seq_lib::group_to_multiset_ensures;

    if sorted.len() == 0 {
        assert(seq![m] =~= Seq::<PasteMeta>::empty().push(m));
    } else if key_of(sorted.last()) >= key_of(m) {
    } else {
        let d = sorted.drop_last();
        lemma_insert_desc_multiset(d, m);
        assert(sorted =~= d.push(sorted.last()));
    }
}

/// The ordering of a listing is newest first, and it keeps every record
/// exactly as often as it was given.
pub proof fn lemma_sort_desc_sorted(s: Seq<PasteMeta>)
    ensures
        is_desc(sort_desc(s)),
        sort_desc(s).len() == s.len(),
        sort_desc(s).to_multiset() =~= s.to_multiset(),
    decreases s.len(),
{
    broadcast use vstd::seq_lib::group_to_multiset_ensures;

    if s.len() > 0 {
        lemma_sort_desc_sorted(s.drop_last());
        lemma_insert_desc_sorted(sort_desc(s.drop_last()), s.last());
        lemma_insert_desc_multiset(sort_desc(s.drop_last()), s.last());
        assert(s =~= s.drop_last().push(s.last()));
    }
}

/// Selects the listing of recent records: those whose tag is `tag` (all
/// without a filter), newest first, at most `n`.
pub fn select_recent(metas: Vec<PasteMeta>, n: usize, tag: Option<&str>) -> (r: Vec<PasteMeta>)
    ensures
        r@ == recent_of(metas@, n as nat, crate::store::opt_str(tag)),
{
    let ghost all = metas@;
    let ghost tv = crate::store::opt_str(tag);
    let tag_s: Option<String> = match tag {
        Some(t) => Some(t.to_string()),
        None => None,
    };
    let mut rest = metas;
    let mut out: Vec<PasteMeta> = Vec::new();
    let mut k: usize = 0;
    let total = rest.len();
    assert(all.take(0) =~= Seq::<PasteMeta>::empty());
    while rest.len() > 0
        invariant
            k + rest@.len() == total == all.len(),
            rest@ == all.skip(k as int),
            out@ == sort_desc(filter_tag(all.take(k as int), tv)),
            crate::digest::opt_view(tag_s) == tv,
        decreases rest@.len(),
    {
        let m = rest.remove(0);
        let ghost prefix = all.take(k + 1);
        assert(prefix.drop_last() =~= all.take(k as int));
        assert(prefix.last() == m);
        let keep = match &tag_s {
            None => true,
            Some(t) => match &m.tag {
                Some(mt) => mt.eq(t),
                None => false,
            },
        };
        assert(keep == tag_matches(m, tv));
        proof {
            let f = filter_tag(all.take(k as int), tv);
            if keep {
                assert(filter_tag(prefix, tv) == f.push(m));
                assert(f.push(m).drop_last() =~= f);
                assert(sort_desc(f.push(m)) == insert_desc(sort_desc(f), m));
            } else {
                assert(filter_tag(prefix, tv) == f);
            }
        }
        if keep {
            let mut pos: usize = out.len();
            while pos > 0 && out[pos - 1].created_at.unix_nanos < m.created_at.unix_nanos
                invariant
                    pos <= out@.len(),
                    forall|q: int| pos <= q < out@.len() ==> key_of(#[trigger] out@[q]) < key_of(m),
                decreases pos,
            {
                pos = pos - 1;
            }
            let ghost before = out@;
            let ghost mm = m;
            proof {
                lemma_insert_at(before, m, pos as int);
            }
            out.insert(pos, m);
            assert(out@ =~= before.take(pos as int) + seq![mm] + before.skip(pos as int));
        }
        k = k + 1;
        assert(rest@ =~= all.skip(k as int));
    }
    assert(all.take(total as int) =~= all);
    out.truncate(n);
    out
}

} // verus!
