use vstd::prelude::*;
use crate::registry::{
    compatible, has_key, unique_keys, EntryView, ImportEntry, ImportKey, ImportTable, KeyView,
    Signature, SigView,
};

verus! {

/// Abstract form of an import a module expects: key, then signature.
pub type RequestView = (KeyView, SigView);

/// An import a compiled module expects the embedder to provide.
pub struct ImportRequest {
    pub key: ImportKey,
    pub signature: Signature,
}

impl View for ImportRequest {
    type V = RequestView;

    open spec fn view(&self) -> RequestView {
        (self.key@, self.signature@)
    }
}

impl ImportRequest {
    pub fn new(key: ImportKey, signature: Signature) -> (r: ImportRequest)
        ensures
            r@ == (key@, signature@),
    {
        ImportRequest { key, signature }
    }
}

/// The abstract forms of a list of requests.
pub open spec fn requests_view(rs: Seq<ImportRequest>) -> Seq<RequestView> {
    rs.map_values(|r: ImportRequest| r@)
}

/// The abstract forms of a list of keys.
pub open spec fn keys_view(ks: Seq<ImportKey>) -> Seq<KeyView> {
    ks.map_values(|k: ImportKey| k@)
}

/// Whether `table` holds an entry with the key of `r` and a compatible signature.
pub open spec fn satisfied(table: Seq<EntryView>, r: RequestView) -> bool {
    exists|i: int| 0 <= i < table.len() && (#[trigger] table[i]).0 == r.0 && compatible(table[i].1, r.1)
}

/// Keys of the requests that `table` does not satisfy, in request order.
pub open spec fn missing(table: Seq<EntryView>, reqs: Seq<RequestView>) -> Seq<KeyView>
    decreases reqs.len(),
{
    if reqs.len() == 0 {
        Seq::empty()
    } else {
        let rest = missing(table, reqs.drop_last());
        if satisfied(table, reqs.last()) {
            rest
        } else {
            rest.push(reqs.last().0)
        }
    }
}

/// Whether `es` declares the key of `e` with a signature incompatible with that of `e`.
pub open spec fn clashes(es: Seq<EntryView>, e: EntryView) -> bool {
    exists|i: int| 0 <= i < es.len() && (#[trigger] es[i]).0 == e.0 && !compatible(es[i].1, e.1)
}

/// Keys that `host` declares and `platform` declares incompatibly, in host order.
pub open spec fn conflicts(host: Seq<EntryView>, platform: Seq<EntryView>) -> Seq<KeyView>
    decreases host.len(),
{
    if host.len() == 0 {
        Seq::empty()
    } else {
        let rest = conflicts(host.drop_last(), platform);
        if clashes(platform, host.last()) {
            rest.push(host.last().0)
        } else {
            rest
        }
    }
}

/// Entries of `platform` whose key `host` does not declare, in platform order.
pub open spec fn extra(host: Seq<EntryView>, platform: Seq<EntryView>) -> Seq<EntryView>
    decreases platform.len(),
{
    if platform.len() == 0 {
        Seq::empty()
    } else {
        let rest = extra(host, platform.drop_last());
        if has_key(host, platform.last().0) {
            rest
        } else {
            rest.push(platform.last())
        }
    }
}

/// The merge of two tables: an entry declared by both with compatible
/// signatures is kept once, as the host declared it.
pub open spec fn merged(host: Seq<EntryView>, platform: Seq<EntryView>) -> Seq<EntryView> {
    host + extra(host, platform)
}

/// A key is reported missing exactly when some request for it is not satisfied.
pub proof fn lemma_missing_complete(table: Seq<EntryView>, reqs: Seq<RequestView>)
    ensures
        forall|k: KeyView|
            #[trigger] missing(table, reqs).contains(k) <==> exists|i: int|
                0 <= i < reqs.len() && (#[trigger] reqs[i]).0 == k && !satisfied(table, reqs[i]),
    decreases reqs.len(),
{
    if reqs.len() > 0 {
        let pre = reqs.drop_last();
        lemma_missing_complete(table, pre);
        assert forall|k: KeyView|
            #[trigger] missing(table, reqs).contains(k) <==> exists|i: int|
                0 <= i < reqs.len() && (#[trigger] reqs[i]).0 == k && !satisfied(table, reqs[i]) by {
            let last = reqs.last();
            if missing(table, reqs).contains(k) {
                let m = missing(table, reqs);
                let x = choose|x: int| 0 <= x < m.len() && m[x] == k;
                if x < missing(table, pre).len() {
                    assert(missing(table, pre).contains(k));
                    let i = choose|i: int|
                        0 <= i < pre.len() && (#[trigger] pre[i]).0 == k && !satisfied(table, pre[i]);
                    assert(reqs[i] == pre[i]);
                } else {
                    assert(reqs[reqs.len() - 1] == last);
                }
            }
            if exists|i: int|
                0 <= i < reqs.len() && (#[trigger] reqs[i]).0 == k && !satisfied(table, reqs[i]) {
                let i = choose|i: int|
                    0 <= i < reqs.len() && (#[trigger] reqs[i]).0 == k && !satisfied(table, reqs[i]);
                if i < pre.len() {
                    assert(pre[i] == reqs[i]);
                    assert(missing(table, pre).contains(k));
                    let x = choose|x: int|
                        0 <= x < missing(table, pre).len() && missing(table, pre)[x] == k;
                    if !satisfied(table, last) {
                        assert(missing(table, reqs)[x] == k);
                    }
                } else {
                    assert(missing(table, reqs)[missing(table, reqs).len() - 1] == k);
                }
            }
        }
    }
}

/// A table that satisfies only the first of three requests for distinct keys
/// leaves the other two missing, both of them, in order.
pub proof fn lemma_all_missing_reported(
    table: Seq<EntryView>,
    a: RequestView,
    b: RequestView,
    c: RequestView,
)
    requires
        table.len() == 1,
        table[0].0 == a.0,
        compatible(table[0].1, a.1),
        a.0 != b.0,
        a.0 != c.0,
        b.0 != c.0,
    ensures
        missing(table, seq![a, b, c]) == seq![b.0, c.0],
{
    let reqs = seq![a, b, c];
    assert(satisfied(table, a));
    assert(!satisfied(table, b));
    assert(!satisfied(table, c));
    assert(reqs.drop_last() =~= seq![a, b]);
    assert(seq![a, b].drop_last() =~= seq![a]);
    assert(seq![a].drop_last() =~= Seq::<RequestView>::empty());
    assert(missing(table, Seq::<RequestView>::empty()) == Seq::<KeyView>::empty());
    assert(seq![a].last() == a);
    assert(missing(table, seq![a]) == missing(table, Seq::<RequestView>::empty()));
    assert(seq![a, b].last() == b);
    assert(reqs.last() == c);
    assert(missing(table, seq![a, b]) =~= seq![b.0]);
    assert(missing(table, reqs) =~= seq![b.0, c.0]);
}

/// A key is reported as a conflict exactly when `host` declares it and
/// `platform` declares it with an incompatible signature.
pub proof fn lemma_conflicts_exact(host: Seq<EntryView>, platform: Seq<EntryView>)
    ensures
        forall|k: KeyView|
            #[trigger] conflicts(host, platform).contains(k) <==> exists|i: int|
                0 <= i < host.len() && (#[trigger] host[i]).0 == k && clashes(platform, host[i]),
    decreases host.len(),
{
    if host.len() > 0 {
        let pre = host.drop_last();
        lemma_conflicts_exact(pre, platform);
        assert forall|k: KeyView|
            #[trigger] conflicts(host, platform).contains(k) <==> exists|i: int|
                0 <= i < host.len() && (#[trigger] host[i]).0 == k && clashes(platform, host[i]) by {
            let last = host.last();
            let m = conflicts(host, platform);
            let mp = conflicts(pre, platform);
            if m.contains(k) {
                let x = choose|x: int| 0 <= x < m.len() && m[x] == k;
                if x < mp.len() {
                    assert(mp.contains(k));
                    let i = choose|i: int|
                        0 <= i < pre.len() && (#[trigger] pre[i]).0 == k && clashes(platform, pre[i]);
                    assert(host[i] == pre[i]);
                } else {
                    assert(host[host.len() - 1] == last);
                }
            }
            if exists|i: int|
                0 <= i < host.len() && (#[trigger] host[i]).0 == k && clashes(platform, host[i]) {
                let i = choose|i: int|
                    0 <= i < host.len() && (#[trigger] host[i]).0 == k && clashes(platform, host[i]);
                if i < pre.len() {
                    assert(pre[i] == host[i]);
                    assert(mp.contains(k));
                    let x = choose|x: int| 0 <= x < mp.len() && mp[x] == k;
                    if clashes(platform, last) {
                        assert(m[x] == k);
                    }
                } else {
                    assert(m[m.len() - 1] == k);
                }
            }
        }
    }
}

/// Merging is order-independent in what it refuses: the same keys conflict
/// whichever table is taken as the host's.
pub proof fn lemma_conflicts_symmetric(a: Seq<EntryView>, b: Seq<EntryView>)
    ensures
        forall|k: KeyView|
            #[trigger] conflicts(a, b).contains(k) <==> conflicts(b, a).contains(k),
{
    lemma_conflicts_exact(a, b);
    lemma_conflicts_exact(b, a);
    assert forall|k: KeyView| #[trigger] conflicts(a, b).contains(k) implies conflicts(b, a).contains(k) by {
        let i = choose|i: int| 0 <= i < a.len() && (#[trigger] a[i]).0 == k && clashes(b, a[i]);
        let j = choose|j: int| 0 <= j < b.len() && (#[trigger] b[j]).0 == a[i].0 && !compatible(b[j].1, a[i].1);
        assert(clashes(a, b[j]));
    }
    assert forall|k: KeyView| #[trigger] conflicts(b, a).contains(k) implies conflicts(a, b).contains(k) by {
        let i = choose|i: int| 0 <= i < b.len() && (#[trigger] b[i]).0 == k && clashes(a, b[i]);
        let j = choose|j: int| 0 <= j < a.len() && (#[trigger] a[j]).0 == b[i].0 && !compatible(a[j].1, b[i].1);
        assert(clashes(b, a[j]));
    }
}

/// The merged table declares exactly the keys that either table declares.
pub proof fn lemma_merged_keys(host: Seq<EntryView>, platform: Seq<EntryView>, k: KeyView)
    ensures
        has_key(merged(host, platform), k) <==> has_key(host, k) || has_key(platform, k),
    decreases platform.len(),
{
    let m = merged(host, platform);
    lemma_extra_keys(host, platform, k);
    if has_key(host, k) {
        let i = choose|i: int| 0 <= i < host.len() && (#[trigger] host[i]).0 == k;
        assert(m[i] == host[i]);
    }
    if has_key(m, k) && !has_key(host, k) {
        let i = choose|i: int| 0 <= i < m.len() && (#[trigger] m[i]).0 == k;
        if i < host.len() {
            assert(host[i] == m[i]);
        } else {
            assert(extra(host, platform)[i - host.len()] == m[i]);
        }
    }
    if has_key(platform, k) && !has_key(host, k) && platform.len() > 0 {
        let pre = platform.drop_last();
        lemma_merged_keys(host, pre, k);
        let j = choose|j: int| 0 <= j < platform.len() && (#[trigger] platform[j]).0 == k;
        let ex = extra(host, platform);
        if j < pre.len() {
            assert(pre[j] == platform[j]);
            let mp = merged(host, pre);
            let x = choose|x: int| 0 <= x < mp.len() && (#[trigger] mp[x]).0 == k;
            if x < host.len() {
                assert(host[x] == mp[x]);
            } else {
                assert(ex[x - host.len()] == extra(host, pre)[x - host.len()]);
                assert(m[x] == mp[x]);
            }
        } else {
            assert(ex[ex.len() - 1] == platform.last());
            assert(m[m.len() - 1] == platform.last());
        }
    }
}

/// Why a merge of import tables was refused.
pub struct ImportConflict {
    /// Every key declared by both tables with incompatible signatures.
    pub keys: Vec<ImportKey>,
}

/// Why a module could not be linked against an import table.
pub struct LinkError {
    /// Every import the module expects and the table does not satisfy.
    pub missing: Vec<ImportKey>,
}

proof fn lemma_extra_keys(host: Seq<EntryView>, platform: Seq<EntryView>, k: KeyView)
    ensures
        has_key(extra(host, platform), k) ==> has_key(platform, k) && !has_key(host, k),
    decreases platform.len(),
{
    if platform.len() > 0 {
        let pre = platform.drop_last();
        lemma_extra_keys(host, pre, k);
        if has_key(extra(host, platform), k) {
            let ex = extra(host, platform);
            let i = choose|i: int| 0 <= i < ex.len() && (#[trigger] ex[i]).0 == k;
            if i < extra(host, pre).len() {
                assert(extra(host, pre)[i].0 == k);
                let j = choose|j: int| 0 <= j < pre.len() && (#[trigger] pre[j]).0 == k;
                assert(platform[j].0 == k);
            } else {
                assert(platform[platform.len() - 1].0 == k);
            }
        }
    }
}

/// Merges the host's table with a platform layer's table; an entry that both
/// declare with incompatible signatures is reported, never resolved silently.
pub fn merge(host: &ImportTable, platform: &ImportTable) -> (r: Result<ImportTable, ImportConflict>)
    requires
        host.wf(),
        platform.wf(),
    ensures
        r is Ok <==> conflicts(host@, platform@).len() == 0,
        r matches Ok(t) ==> t@ == merged(host@, platform@) && t.wf(),
        r matches Err(c) ==> keys_view(c.keys@) == conflicts(host@, platform@),
{
    let mut found: Vec<ImportKey> = Vec::new();
    let mut i: usize = 0;
    while i < host.len()
        invariant
            i <= host@.len(),
            platform.wf(),
            keys_view(found@) == conflicts(host@.subrange(0, i as int), platform@),
        decreases host@.len() - i,
    {
        let h = host.entry(i);
        let ghost pre = host@.subrange(0, i as int);
        let ghost cur = host@.subrange(0, i + 1);
        assert(cur.drop_last() =~= pre);
        match platform.position(&h.key) {
            Some(j) => {
                if !platform.entry(j).signature.matches(&h.signature) {
                    assert(clashes(platform@, cur.last()));
                    found.push(h.key.duplicate());
                    assert(keys_view(found@) =~= conflicts(cur, platform@));
                } else {
                    assert(!clashes(platform@, cur.last()));
                }
            },
            None => {
                assert(!clashes(platform@, cur.last()));
            },
        }
        i = i + 1;
    }
    assert(host@.subrange(0, host@.len() as int) =~= host@);
    if found.len() > 0 {
        return Err(ImportConflict { keys: found });
    }
    let mut out = host.copy();
    let mut j: usize = 0;
    while j < platform.len()
        invariant
            j <= platform@.len(),
            host.wf(),
            platform.wf(),
            out@ == merged(host@, platform@.subrange(0, j as int)),
            out.wf(),
        decreases platform@.len() - j,
    {
        let p = platform.entry(j);
        let ghost pre = platform@.subrange(0, j as int);
        let ghost cur = platform@.subrange(0, j + 1);
        assert(cur.drop_last() =~= pre);
        match host.position(&p.key) {
            Some(_) => {
                assert(merged(host@, cur) == merged(host@, pre));
            },
            None => {
                proof {
                    lemma_extra_keys(host@, pre, p@.0);
                    if has_key(pre, p@.0) {
                        let q = choose|q: int| 0 <= q < pre.len() && (#[trigger] pre[q]).0 == p@.0;
                        assert(platform@[q].0 == platform@[j as int].0);
                    }
                }
                let ghost before = out@;
                out.append(p.duplicate());
                assert(out@ =~= merged(host@, cur));
                assert forall|a: int, b: int|
                    0 <= a < out@.len() && 0 <= b < out@.len() && a != b implies (#[trigger] out@[a]).0
                    != (#[trigger] out@[b]).0 by {
                    if a == before.len() && b < before.len() {
                        assert(has_key(before, out@[b].0));
                    }
                    if b == before.len() && a < before.len() {
                        assert(has_key(before, out@[a].0));
                    }
                }
                proof {
                    if has_key(before, p@.0) {
                        let q = choose|q: int| 0 <= q < before.len() && (#[trigger] before[q]).0 == p@.0;
                        if q < host@.len() {
                            assert(host@[q].0 == p@.0);
                        } else {
                            assert(extra(host@, pre)[q - host@.len()].0 == p@.0);
                        }
                    }
                }
            },
        }
        j = j + 1;
    }
    assert(platform@.subrange(0, platform@.len() as int) =~= platform@);
    Ok(out)
}

/// Links the imports a module expects against `table`: on success, for each
/// request in order, the index of the table entry that satisfies it; else the
/// complete list of what is missing.
pub fn link(required: &Vec<ImportRequest>, table: &ImportTable) -> (r: Result<Vec<usize>, LinkError>)
    requires
        table.wf(),
    ensures
        r is Ok <==> missing(table@, requests_view(required@)).len() == 0,
        r matches Ok(ix) ==> ix@.len() == required@.len() && forall|i: int|
            0 <= i < ix@.len() ==> {
                &&& (#[trigger] ix@[i]) < table@.len()
                &&& table@[ix@[i] as int].0 == required@[i].key@
                &&& compatible(table@[ix@[i] as int].1, required@[i].signature@)
            },
        r matches Err(e) ==> keys_view(e.missing@) == missing(table@, requests_view(required@)),
{
    let ghost reqs = requests_view(required@);
    let mut resolved: Vec<usize> = Vec::new();
    let mut absent: Vec<ImportKey> = Vec::new();
    let mut i: usize = 0;
    while i < required.len()
        invariant
            i <= required@.len(),
            reqs == requests_view(required@),
            table.wf(),
            keys_view(absent@) == missing(table@, reqs.subrange(0, i as int)),
            resolved@.len() == i,
            forall|k: int|
                0 <= k < i && satisfied(table@, reqs[k]) ==> {
                    &&& (#[trigger] resolved@[k]) < table@.len()
                    &&& table@[resolved@[k] as int].0 == required@[k].key@
                    &&& compatible(table@[resolved@[k] as int].1, required@[k].signature@)
                },
        decreases required@.len() - i,
    {
        let q = &required[i];
        let ghost pre = reqs.subrange(0, i as int);
        let ghost cur = reqs.subrange(0, i + 1);
        assert(cur.drop_last() =~= pre);
        assert(cur.last() == q@);
        match table.position(&q.key) {
            Some(j) => {
                if table.entry(j).signature.matches(&q.signature) {
                    assert(satisfied(table@, q@));
                    resolved.push(j);
                } else {
                    assert(!satisfied(table@, q@));
                    absent.push(q.key.duplicate());
                    assert(keys_view(absent@) =~= missing(table@, cur));
                    resolved.push(0);
                }
            },
            None => {
                assert(!satisfied(table@, q@));
                absent.push(q.key.duplicate());
                assert(keys_view(absent@) =~= missing(table@, cur));
                resolved.push(0);
            },
        }
        i = i + 1;
    }
    assert(reqs.subrange(0, required@.len() as int) =~= reqs);
    if absent.len() > 0 {
        Err(LinkError { missing: absent })
    } else {
        proof {
            lemma_missing_complete(table@, reqs);
            assert forall|k: int| 0 <= k < reqs.len() implies satisfied(table@, #[trigger] reqs[k]) by {
                if !satisfied(table@, reqs[k]) {
                    assert(missing(table@, reqs).contains(reqs[k].0));
                }
            }
        }
        Ok(resolved)
    }
}

} // verus!
