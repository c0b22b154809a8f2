//! Joining TGFS index entries with their blob documents, which live in separate
//! deployments and cannot be joined by the database: which blob cluster to ask,
//! how to batch the lookups, what counts as pending and how hard to sample.

use vstd::prelude::*;
use crate::tgfs_models::{TgfsBlobDoc, TgfsIndexDoc};

verus! {

/// Working-set cap for operations that must materialize every index document
/// matching a filter before joining it (extremely large results are truncated).
pub const TGFS_CANDIDATE_LIMIT: i64 = 5000;

/// `blob_cluster_of`: the `cluster` field (0 when missing, negatives as 0), or 0 when
/// it does not name one of the `n_blob_clusters` configured blob clusters.
pub open spec fn spec_blob_cluster(cluster: Option<i64>, n_blob_clusters: usize) -> usize {
    let raw = match cluster {
        Some(v) => if v < 0 {
            0
        } else {
            v
        },
        None => 0,
    };
    if (raw as usize) >= n_blob_clusters {
        0
    } else {
        raw as usize
    }
}

/// Which blob cluster an index document's file lives in, clamped to a valid index.
pub fn blob_cluster_of(index_doc: &TgfsIndexDoc, n_blob_clusters: usize) -> (r: usize)
    ensures
        r == spec_blob_cluster(index_doc.cluster, n_blob_clusters),
        n_blob_clusters > 0 ==> r < n_blob_clusters,
{
    let raw: i64 = match index_doc.cluster {
        Some(v) => if v < 0 {
            0
        } else {
            v
        },
        None => 0,
    };
    let raw_u = raw as usize;
    if raw_u >= n_blob_clusters {
        0
    } else {
        raw_u
    }
}

/// True if a file has not been through the review workflow yet: no `reviewed_at` on
/// its blob document, or no blob document at all (an orphaned index entry, kept
/// pending so it still surfaces for cleanup).
pub fn is_pending(blob_doc: Option<&TgfsBlobDoc>) -> (r: bool)
    ensures
        r == match blob_doc {
            Some(d) => !d.has_reviewed_at,
            None => true,
        },
{
    match blob_doc {
        Some(d) => !d.has_reviewed_at,
        None => true,
    }
}

/// The file ids of `wanted` that live in `cluster`, in order.
pub open spec fn ids_in_cluster(wanted: Seq<(usize, i64)>, cluster: usize) -> Seq<i64>
    decreases wanted.len(),
{
    if wanted.len() == 0 {
        Seq::empty()
    } else if wanted.last().0 == cluster {
        ids_in_cluster(wanted.drop_last(), cluster).push(wanted.last().1)
    } else {
        ids_in_cluster(wanted.drop_last(), cluster)
    }
}

/// `groups` batches `wanted` by cluster: one group per cluster that occurs (each
/// once, in order of first occurrence), holding that cluster's file ids in order.
pub open spec fn groups_ok(groups: Seq<(usize, Seq<i64>)>, wanted: Seq<(usize, i64)>) -> bool {
    &&& forall|g: int| 0 <= g < groups.len() ==> #[trigger] groups[g].1 == ids_in_cluster(wanted, groups[g].0)
    &&& forall|g: int, h: int| 0 <= g < h < groups.len() ==> groups[g].0 != groups[h].0
    &&& forall|j: int| 0 <= j < wanted.len() ==> exists|g: int| 0 <= g < groups.len() && #[trigger] groups[g].0 == #[trigger] wanted[j].0
    &&& forall|g: int| 0 <= g < groups.len() ==> exists|j: int| 0 <= j < wanted.len() && #[trigger] groups[g].0 == #[trigger] wanted[j].0
}

pub open spec fn groups_view(groups: Seq<(usize, Vec<i64>)>) -> Seq<(usize, Seq<i64>)> {
    Seq::new(groups.len(), |i: int| (groups[i].0, groups[i].1@))
}

#[verifier::rlimit(40)]
proof fn lemma_group_extend(old_groups: Seq<(usize, Seq<i64>)>, pre: Seq<(usize, i64)>, c: usize, fid: i64, g: int)
    requires
        groups_ok(old_groups, pre),
        0 <= g < old_groups.len(),
        old_groups[g].0 == c,
    ensures
        groups_ok(old_groups.update(g, (c, old_groups[g].1.push(fid))), pre.push((c, fid))),
{
    let nxt = pre.push((c, fid));
    let gv = old_groups.update(g, (c, old_groups[g].1.push(fid)));
    assert(nxt.drop_last() == pre);
    assert(nxt.last() == (c, fid));
    assert forall|k: int| 0 <= k < gv.len() implies #[trigger] gv[k].0 == old_groups[k].0 by {}
    assert forall|k: int| 0 <= k < gv.len() implies #[trigger] gv[k].1 == ids_in_cluster(nxt, gv[k].0) by {
        if k != g {
            assert(gv[k] == old_groups[k]);
            assert(old_groups[k].0 != old_groups[g].0);
            assert(ids_in_cluster(nxt, gv[k].0) == ids_in_cluster(pre, gv[k].0));
        } else {
            assert(ids_in_cluster(nxt, c) == ids_in_cluster(pre, c).push(fid));
        }
    }
    assert forall|a: int, b: int| 0 <= a < b < gv.len() implies gv[a].0 != gv[b].0 by {
        assert(gv[a].0 == old_groups[a].0);
        assert(gv[b].0 == old_groups[b].0);
    }
    assert forall|j: int| 0 <= j < nxt.len() implies exists|h: int| 0 <= h < gv.len() && #[trigger] gv[h].0 == #[trigger] nxt[j].0 by {
        if j < pre.len() {
            assert(nxt[j] == pre[j]);
            let h = choose|h: int| 0 <= h < old_groups.len() && #[trigger] old_groups[h].0 == #[trigger] pre[j].0;
            assert(gv[h].0 == old_groups[h].0);
        } else {
            assert(gv[g].0 == nxt[j].0);
        }
    }
    assert forall|k: int| 0 <= k < gv.len() implies exists|j: int| 0 <= j < nxt.len() && #[trigger] gv[k].0 == #[trigger] nxt[j].0 by {
        let j = choose|j: int| 0 <= j < pre.len() && #[trigger] old_groups[k].0 == #[trigger] pre[j].0;
        assert(nxt[j] == pre[j]);
        assert(gv[k].0 == old_groups[k].0);
    }
}

#[verifier::rlimit(40)]
proof fn lemma_group_new(old_groups: Seq<(usize, Seq<i64>)>, pre: Seq<(usize, i64)>, c: usize, fid: i64)
    requires
        groups_ok(old_groups, pre),
        forall|h: int| 0 <= h < old_groups.len() ==> old_groups[h].0 != c,
    ensures
        groups_ok(old_groups.push((c, seq![fid])), pre.push((c, fid))),
{
    let nxt = pre.push((c, fid));
    let gv = old_groups.push((c, seq![fid]));
    assert(nxt.drop_last() == pre);
    assert forall|j: int| 0 <= j < pre.len() implies pre[j].0 != c by {
        let h = choose|h: int| 0 <= h < old_groups.len() && #[trigger] old_groups[h].0 == #[trigger] pre[j].0;
    }
    lemma_ids_in_cluster_absent(pre, c);
    assert(seq![fid] == Seq::<i64>::empty().push(fid));
    assert forall|k: int| 0 <= k < gv.len() implies #[trigger] gv[k].1 == ids_in_cluster(nxt, gv[k].0) by {
        if k < old_groups.len() {
            assert(gv[k] == old_groups[k]);
        }
    }
    assert forall|j: int| 0 <= j < nxt.len() implies exists|h: int| 0 <= h < gv.len() && #[trigger] gv[h].0 == #[trigger] nxt[j].0 by {
        if j < pre.len() {
            assert(nxt[j] == pre[j]);
            let h = choose|h: int| 0 <= h < old_groups.len() && #[trigger] old_groups[h].0 == #[trigger] pre[j].0;
            assert(gv[h].0 == old_groups[h].0);
        } else {
            assert(gv[old_groups.len() as int].0 == nxt[j].0);
        }
    }
    assert forall|k: int| 0 <= k < gv.len() implies exists|j: int| 0 <= j < nxt.len() && #[trigger] gv[k].0 == #[trigger] nxt[j].0 by {
        if k < old_groups.len() {
            let j = choose|j: int| 0 <= j < pre.len() && #[trigger] old_groups[k].0 == #[trigger] pre[j].0;
            assert(nxt[j] == pre[j]);
            assert(gv[k].0 == old_groups[k].0);
        } else {
            assert(gv[k].0 == nxt[pre.len() as int].0);
        }
    }
}

/// Groups `(blob_cluster, file_id)` pairs per cluster, so that each cluster is asked
/// once with a single `$in` query.
pub fn group_by_cluster(wanted: &[(usize, i64)]) -> (groups: Vec<(usize, Vec<i64>)>)
    ensures
        groups_ok(groups_view(groups@), wanted@),
{
    let mut groups: Vec<(usize, Vec<i64>)> = Vec::new();
    let mut i: usize = 0;
    proof {
        assert(groups_view(groups@) =~= Seq::<(usize, Seq<i64>)>::empty());
        assert(wanted@.take(0) =~= Seq::<(usize, i64)>::empty());
    }
    while i < wanted.len()
        invariant
            i <= wanted@.len(),
            groups_ok(groups_view(groups@), wanted@.take(i as int)),
        decreases wanted@.len() - i,
    {
        let (c, fid) = wanted[i];
        let ghost pre = wanted@.take(i as int);
        proof {
            assert(wanted@.take(i + 1) == pre.push((c, fid)));
        }
        let mut g: usize = 0;
        while g < groups.len() && groups[g].0 != c
            invariant
                g <= groups@.len(),
                forall|h: int| 0 <= h < g ==> groups@[h].0 != c,
            decreases groups@.len() - g,
        {
            g = g + 1;
        }
        let ghost old_groups = groups_view(groups@);
        if g < groups.len() {
            let mut ids = groups[g].1.clone();
            ids.push(fid);
            groups.set(g, (c, ids));
            proof {
                lemma_group_extend(old_groups, pre, c, fid, g as int);
                assert(groups_view(groups@) =~= old_groups.update(g as int, (c, old_groups[g as int].1.push(fid))));
            }
        } else {
            let mut ids: Vec<i64> = Vec::new();
            ids.push(fid);
            groups.push((c, ids));
            proof {
                assert forall|h: int| 0 <= h < old_groups.len() implies old_groups[h].0 != c by {
                    assert(old_groups[h].0 == groups@[h].0);
                }
                lemma_group_new(old_groups, pre, c, fid);
                assert(groups_view(groups@) =~= old_groups.push((c, seq![fid])));
            }
        }
        i = i + 1;
    }
    proof {
        assert(wanted@.take(wanted@.len() as int) == wanted@);
    }
    groups
}

proof fn lemma_ids_in_cluster_absent(wanted: Seq<(usize, i64)>, cluster: usize)
    requires
        forall|j: int| 0 <= j < wanted.len() ==> wanted[j].0 != cluster,
    ensures
        ids_in_cluster(wanted, cluster) == Seq::<i64>::empty(),
    decreases wanted.len(),
{
    if wanted.len() > 0 {
        lemma_ids_in_cluster_absent(wanted.drop_last(), cluster);
    }
}

/// `(blob_cluster, file_id)` of every index document that has a file id.
pub open spec fn blob_keys_spec(docs: Seq<TgfsIndexDoc>, n_blob_clusters: usize) -> Seq<(usize, i64)>
    decreases docs.len(),
{
    if docs.len() == 0 {
        Seq::empty()
    } else {
        let prev = blob_keys_spec(docs.drop_last(), n_blob_clusters);
        match docs.last().file_id {
            Some(fid) => prev.push((spec_blob_cluster(docs.last().cluster, n_blob_clusters), fid)),
            None => prev,
        }
    }
}

/// The blob lookups a set of index documents needs.
pub fn blob_keys(docs: &[TgfsIndexDoc], n_blob_clusters: usize) -> (r: Vec<(usize, i64)>)
    ensures
        r@ == blob_keys_spec(docs@, n_blob_clusters),
{
    let mut r: Vec<(usize, i64)> = Vec::new();
    let mut i: usize = 0;
    while i < docs.len()
        invariant
            i <= docs@.len(),
            r@ == blob_keys_spec(docs@.take(i as int), n_blob_clusters),
        decreases docs@.len() - i,
    {
        proof {
            assert(docs@.take(i + 1).drop_last() == docs@.take(i as int));
            assert(docs@.take(i + 1).last() == docs@[i as int]);
        }
        match docs[i].file_id {
            Some(fid) => {
                let c = blob_cluster_of(&docs[i], n_blob_clusters);
                r.push((c, fid));
            },
            None => {},
        }
        i = i + 1;
    }
    proof {
        assert(docs@.take(docs@.len() as int) == docs@);
    }
    r
}

/// Cap on how many entries one cluster is sampled for.
pub const MAX_SAMPLE_POOL: i64 = 2000;

/// How many entries to sample per cluster: `page_size * multiplier`, capped.
pub fn sample_pool_size(page_size: i64, multiplier: i64) -> (r: i64)
    requires
        i64::MIN <= page_size * multiplier <= i64::MAX,
    ensures
        r == if page_size * multiplier < MAX_SAMPLE_POOL {
            page_size * multiplier
        } else {
            MAX_SAMPLE_POOL as int
        },
{
    let n = page_size * multiplier;
    if n < MAX_SAMPLE_POOL {
        n
    } else {
        MAX_SAMPLE_POOL
    }
}

/// What to do after one round of over-sampling for pending entries.
pub enum SampleStep {
    /// Keep the first `keep` pending entries found and stop.
    Done { keep: usize },
    /// Sample again with this (larger) multiplier.
    Retry { multiplier: i64 },
}

/// After a round sampled with `multiplier` found `found` pending entries: stop when
/// there are enough for a page or the multiplier has reached 32 (keeping at most
/// `page_size`), else retry with four times the multiplier.
pub fn next_sample_step(found: usize, page_size: i64, multiplier: i64) -> (r: SampleStep)
    requires
        0 <= page_size,
        0 < multiplier,
        multiplier * 4 <= i64::MAX,
    ensures
        match r {
            SampleStep::Done { keep } => {
                &&& (found >= page_size || multiplier >= 32)
                &&& keep == if found < page_size {
                    found as int
                } else {
                    page_size as int
                }
            },
            SampleStep::Retry { multiplier: m } => {
                &&& found < page_size
                &&& multiplier < 32
                &&& m == multiplier * 4
            },
        },
{
    let found_i = found as u64;
    let enough = found_i >= page_size as u64;
    if enough || multiplier >= 32 {
        let keep = if enough {
            page_size as usize
        } else {
            found
        };
        SampleStep::Done { keep }
    } else {
        SampleStep::Retry { multiplier: multiplier * 4 }
    }
}

} // verus!
