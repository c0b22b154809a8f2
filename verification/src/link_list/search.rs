//! Combining and ordering search results.

use vstd::prelude::*;
use std::collections::HashMap;
use crate::handlers::tgfs_done::joined_blob;
use crate::link_list::models::{FileDetail, ResultTile, icon_for};
use crate::models::{FileCard, PlgbFileDoc, file_card_ok};
use crate::text::{self, chars_of, to_lowercase};
use crate::tgfs_models::{TgfsBlobDoc, TgfsFileCard, TgfsIndexDoc, tgfs_card_ok};

verus! {

/// How many raw candidates are pulled per source (and per index cluster) before
/// filtering and sorting.
pub const CANDIDATE_LIMIT: i64 = 150;

// ---------------------------------------------------------------------------
// Ordering by name
// ---------------------------------------------------------------------------

/// `a` sorts before `b`, comparing from position `i` on: character codes, a
/// proper prefix first.
pub open spec fn lt_from(a: Seq<char>, b: Seq<char>, i: int) -> bool
    decreases a.len() - i,
{
    if i < 0 || i >= a.len() {
        0 <= i < b.len()
    } else if i >= b.len() {
        false
    } else if a[i] != b[i] {
        (a[i] as int) < (b[i] as int)
    } else {
        lt_from(a, b, i + 1)
    }
}

/// `a < b` as strings compare.
pub open spec fn str_lt(a: Seq<char>, b: Seq<char>) -> bool {
    lt_from(a, b, 0)
}

proof fn lemma_lt_trans(a: Seq<char>, b: Seq<char>, c: Seq<char>, i: int)
    requires
        0 <= i,
        lt_from(a, b, i),
        lt_from(b, c, i),
    ensures
        lt_from(a, c, i),
    decreases a.len() - i,
{
    if i < a.len() && i < b.len() && i < c.len() && a[i] == b[i] && b[i] == c[i] {
        lemma_lt_trans(a, b, c, i + 1);
    }
}

proof fn lemma_lt_total(a: Seq<char>, b: Seq<char>, i: int)
    requires
        0 <= i <= a.len(),
        i <= b.len(),
        a.take(i) == b.take(i),
    ensures
        a == b || lt_from(a, b, i) || lt_from(b, a, i),
    decreases a.len() - i,
{
    if i == a.len() && i == b.len() {
        assert(a =~= a.take(i));
        assert(b =~= b.take(i));
        assert(a =~= b);
    } else if i < a.len() && i < b.len() {
        if a[i] == b[i] {
            assert(a.take(i + 1) =~= a.take(i).push(a[i]));
            assert(b.take(i + 1) =~= b.take(i).push(b[i]));
            lemma_lt_total(a, b, i + 1);
        } else {
            assert((a[i] as int) != (b[i] as int));
        }
    }
}

/// `str_lt(a, b)`.
pub fn chars_lt(a: &[char], b: &[char]) -> (r: bool)
    ensures
        r == str_lt(a@, b@),
{
    let mut i: usize = 0;
    while i < a.len() && i < b.len() && a[i] == b[i]
        invariant
            i <= a@.len(),
            i <= b@.len(),
            lt_from(a@, b@, 0) == lt_from(a@, b@, i as int),
        decreases a@.len() - i,
    {
        i = i + 1;
    }
    if i >= a.len() {
        i < b.len()
    } else if i >= b.len() {
        false
    } else {
        a[i] < b[i]
    }
}

/// Result `a` (with sort key `ka`) comes before result `b`: a smaller key, or the
/// same key and found earlier (the sort is stable).
pub open spec fn name_before(ka: Seq<char>, a: usize, kb: Seq<char>, b: usize) -> bool {
    str_lt(ka, kb) || (ka == kb && a < b)
}

/// The sort key of each name: the name lower-cased.
pub open spec fn name_keys(names: Seq<String>) -> Seq<Seq<char>> {
    Seq::new(names.len(), |i: int| text::lowercase(names[i]@))
}

/// The view of each sort key.
pub open spec fn key_seqs(keys: Seq<Vec<char>>) -> Seq<Seq<char>> {
    Seq::new(keys.len(), |i: int| keys[i]@)
}

/// The order of results whose sort keys are `keys` (each a name already
/// lower-cased): by key, results with the same key in the order found. `r[k]` is
/// the position of the `k`-th result to show.
pub fn order_by_keys(keys: &[Vec<char>]) -> (r: Vec<usize>)
    ensures
        r@.len() == keys@.len(),
        forall|i: usize| r@.contains(i) <==> i < keys@.len(),
        forall|a: int, b: int|
            0 <= a < b < r@.len() ==> name_before(
                key_seqs(keys@)[#[trigger] r@[a] as int],
                r@[a],
                key_seqs(keys@)[#[trigger] r@[b] as int],
                r@[b],
            ),
{
    let ghost ks = key_seqs(keys@);
    let mut r: Vec<usize> = Vec::new();
    let mut i: usize = 0;
    while i < keys.len()
        invariant
            i <= keys@.len(),
            forall|k: int| 0 <= k < keys@.len() ==> (#[trigger] keys@[k])@ == ks[k],
            ks == key_seqs(keys@),
            r@.len() == i,
            forall|x: usize| r@.contains(x) <==> x < i,
            forall|a: int| 0 <= a < r@.len() ==> (#[trigger] r@[a]) < i,
            forall|a: int, b: int|
                0 <= a < b < r@.len() ==> name_before(ks[#[trigger] r@[a] as int], r@[a], ks[#[trigger] r@[b] as int], r@[b]),
        decreases keys@.len() - i,
    {
        let mut j: usize = 0;
        while j < r.len() && !chars_lt(keys[i].as_slice(), keys[r[j]].as_slice())
            invariant
                j <= r@.len(),
                i < keys@.len(),
                    forall|k: int| 0 <= k < keys@.len() ==> (#[trigger] keys@[k])@ == ks[k],
                forall|x: usize| r@.contains(x) <==> x < i,
                forall|a: int| 0 <= a < r@.len() ==> (#[trigger] r@[a]) < i,
                forall|a: int| 0 <= a < j ==> !str_lt(ks[i as int], ks[#[trigger] r@[a] as int]),
            decreases r@.len() - j,
        {
            proof {
                assert(r@.contains(r@[j as int]));
            }
            j = j + 1;
        }
        let ghost old_r = r@;
        proof {
            assert forall|a: int| 0 <= a < old_r.len() implies (#[trigger] old_r[a]) < i by {
                assert(old_r.contains(old_r[a]));
            }
            assert forall|a: int| 0 <= a < j implies name_before(ks[#[trigger] old_r[a] as int], old_r[a], ks[i as int], i) by {
                let ka = ks[old_r[a] as int];
                let kx = ks[i as int];
                assert(ka.take(0) =~= kx.take(0));
                lemma_lt_total(ka, kx, 0);
                assert(old_r.contains(old_r[a]));
            }
            if j < old_r.len() {
                assert forall|a: int| j <= a < old_r.len() implies str_lt(ks[i as int], ks[#[trigger] old_r[a] as int]) by {
                    assert(old_r.contains(old_r[j as int]));
                    if j < a {
                        let kj = ks[old_r[j as int] as int];
                        let ka = ks[old_r[a] as int];
                        assert(name_before(kj, old_r[j as int], ka, old_r[a]));
                        if str_lt(kj, ka) {
                            lemma_lt_trans(ks[i as int], kj, ka, 0);
                        }
                    }
                }
            }
        }
        r.insert(j, i);
        proof {
            assert(r@ == old_r.insert(j as int, i));
            assert forall|a: int| 0 <= a < r@.len() implies (#[trigger] r@[a]) < i + 1 by {
                if a < j {
                    assert(r@[a] == old_r[a]);
                } else if a > j {
                    assert(r@[a] == old_r[a - 1]);
                }
            }
            assert forall|x: usize| r@.contains(x) <==> x < i + 1 by {
                if r@.contains(x) {
                    let m = choose|m: int| 0 <= m < r@.len() && r@[m] == x;
                    if m < j {
                        assert(old_r[m] == x);
                        assert(old_r.contains(x));
                    } else if m > j {
                        assert(old_r[m - 1] == x);
                        assert(old_r.contains(x));
                    }
                }
                if x < i + 1 {
                    if x == i {
                        assert(r@[j as int] == x);
                    } else {
                        assert(old_r.contains(x));
                        let m = choose|m: int| 0 <= m < old_r.len() && old_r[m] == x;
                        if m < j {
                            assert(r@[m] == x);
                        } else {
                            assert(r@[m + 1] == x);
                        }
                    }
                }
            }
            assert forall|a: int, b: int| 0 <= a < b < r@.len() implies name_before(
                ks[#[trigger] r@[a] as int],
                r@[a],
                ks[#[trigger] r@[b] as int],
                r@[b],
            ) by {
                if b < j {
                    assert(name_before(ks[old_r[a] as int], old_r[a], ks[old_r[b] as int], old_r[b]));
                } else if b == j {
                    assert(name_before(ks[old_r[a] as int], old_r[a], ks[i as int], i));
                } else if a == j {
                    assert(str_lt(ks[i as int], ks[old_r[b - 1] as int]));
                } else if a < j {
                    assert(name_before(ks[old_r[a] as int], old_r[a], ks[old_r[b - 1] as int], old_r[b - 1]));
                } else {
                    assert(name_before(ks[old_r[a - 1] as int], old_r[a - 1], ks[old_r[b - 1] as int], old_r[b - 1]));
                }
            }
        }
        i = i + 1;
    }
    r
}

/// The order in which results are listed: by file name ignoring case, results with
/// the same lower-cased name in the order found. `r[k]` is the position of the
/// `k`-th result to show.
pub fn name_order(names: &[String]) -> (r: Vec<usize>)
    ensures
        r@.len() == names@.len(),
        forall|i: usize| r@.contains(i) <==> i < names@.len(),
        forall|a: int, b: int|
            0 <= a < b < r@.len() ==> name_before(
                name_keys(names@)[#[trigger] r@[a] as int],
                r@[a],
                name_keys(names@)[#[trigger] r@[b] as int],
                r@[b],
            ),
{
    let mut keys: Vec<Vec<char>> = Vec::new();
    let mut n: usize = 0;
    while n < names.len()
        invariant
            n <= names@.len(),
            keys@.len() == n,
            forall|k: int| 0 <= k < n ==> (#[trigger] keys@[k])@ == text::lowercase(names@[k]@),
        decreases names@.len() - n,
    {
        let l = to_lowercase(names[n].as_str());
        keys.push(chars_of(l.as_str()));
        n = n + 1;
    }
    proof {
        assert(key_seqs(keys@) == name_keys(names@));
    }
    order_by_keys(keys.as_slice())
}

// ---------------------------------------------------------------------------
// Tiles and details
// ---------------------------------------------------------------------------

/// A TGFS link is listed publicly once it has been reviewed and accepted: its blob
/// has `reviewed_at` and `is_restricted` reads as `false` (a missing flag counts as
/// restricted).
pub open spec fn tgfs_public(blob: Option<TgfsBlobDoc>) -> bool {
    match blob {
        Some(b) => b.has_reviewed_at && b.is_restricted == Some(false),
        None => false,
    }
}

/// Whether a TGFS link is publicly listed.
pub fn is_tgfs_public(blob: Option<&TgfsBlobDoc>) -> (r: bool)
    ensures
        r == tgfs_public(
            match blob {
                Some(b) => Some(*b),
                None => None,
            },
        ),
{
    match blob {
        Some(b) => b.has_reviewed_at && b.is_restricted == Some(false),
        None => false,
    }
}

/// The tile of a card: its detail id, name, size and icon.
pub open spec fn tile_of(t: ResultTile, source: &'static str, detail_id: Seq<char>, file_name: Seq<char>, file_size: Seq<char>, mime_type: Seq<char>) -> bool {
    &&& t.source == source
    &&& t.detail_id@ == detail_id
    &&& t.file_name@ == file_name
    &&& t.file_size_fmt@ == file_size
    &&& t.icon == crate::link_list::models::icon_glyph(
        crate::link_list::models::icon_kind(
            text::lowercase(mime_type),
            text::lowercase(crate::link_list::models::after_last_dot(file_name)),
        ),
    )
}

/// `t` is the tile of the card of a PLGB document.
pub open spec fn plgb_tile_ok(t: ResultTile, doc: PlgbFileDoc, fqdn: Seq<char>) -> bool {
    exists|c: FileCard|
        #[trigger] file_card_ok(c, doc, 0, fqdn) && tile_of(t, "plgb", c.id@, c.file_name@, c.file_size@, c.mime_type@)
}

/// `t` is the tile of the card of a TGFS candidate joined with its blob.
pub open spec fn tgfs_tile_ok(
    t: ResultTile,
    cand: (usize, TgfsIndexDoc),
    blobs: Map<i64, TgfsBlobDoc>,
    secret: Seq<u8>,
    public_url: Seq<char>,
) -> bool {
    exists|c: TgfsFileCard|
        #[trigger] tgfs_card_ok(c, cand.1, joined_blob(cand.1, blobs), cand.0, 0, secret, public_url)
            && tile_of(t, "tgfs", c.entry_id@, c.file_name@, c.file_size@, c.mime_type@)
}

/// The search tiles of PLGB documents, in order: each built from the document's
/// card (numbered 0).
pub fn plgb_tiles(docs: &[PlgbFileDoc], fqdn: &str) -> (tiles: Vec<ResultTile>)
    ensures
        tiles@.len() == docs@.len(),
        forall|k: int|
            0 <= k < tiles@.len() ==> plgb_tile_ok(#[trigger] tiles@[k], docs@[k], fqdn@),
{
    let mut tiles: Vec<ResultTile> = Vec::new();
    let mut i: usize = 0;
    while i < docs.len()
        invariant
            i <= docs@.len(),
            tiles@.len() == i,
            forall|k: int|
                0 <= k < tiles@.len() ==> plgb_tile_ok(#[trigger] tiles@[k], docs@[k], fqdn@),
        decreases docs@.len() - i,
    {
        let card = FileCard::from_doc(&docs[i], 0, fqdn);
        let icon = icon_for(card.mime_type.as_str(), card.file_name.as_str());
        let ghost c = card;
        let t = ResultTile {
            source: "plgb",
            detail_id: card.id,
            icon,
            file_name: card.file_name,
            file_size_fmt: card.file_size,
        };
        proof {
            assert(file_card_ok(c, docs@[i as int], 0, fqdn@));
            assert(tile_of(t, "plgb", c.id@, c.file_name@, c.file_size@, c.mime_type@));
        }
        tiles.push(t);
        i = i + 1;
    }
    tiles
}

/// The search tiles of the publicly listed TGFS candidates, in order; each names
/// the candidate's position among `candidates` beside the tile.
pub fn tgfs_tiles(
    candidates: &[(usize, TgfsIndexDoc)],
    blobs: &HashMap<i64, TgfsBlobDoc>,
    secret: &[u8],
    public_url: &str,
) -> (tiles: Vec<(usize, ResultTile)>)
    ensures
        forall|k: int| 0 <= k < tiles@.len() ==> (#[trigger] tiles@[k]).0 < candidates@.len(),
        forall|a: int, b: int| 0 <= a < b < tiles@.len() ==> (#[trigger] tiles@[a]).0 < (#[trigger] tiles@[b]).0,
        forall|p: int|
            0 <= p < candidates@.len() ==> (tgfs_public(joined_blob(candidates@[p].1, blobs@)) <==> exists|k: int|
                0 <= k < tiles@.len() && (#[trigger] tiles@[k]).0 == p),
        forall|k: int|
            0 <= k < tiles@.len() ==> tgfs_tile_ok(
                (#[trigger] tiles@[k]).1,
                candidates@[tiles@[k].0 as int],
                blobs@,
                secret@,
                public_url@,
            ),
{
    broadcast use vstd::std_specs::hash::group_hash_axioms;

    let mut tiles: Vec<(usize, ResultTile)> = Vec::new();
    let mut i: usize = 0;
    while i < candidates.len()
        invariant
            i <= candidates@.len(),
            forall|k: int| 0 <= k < tiles@.len() ==> (#[trigger] tiles@[k]).0 < i,
            forall|a: int, b: int| 0 <= a < b < tiles@.len() ==> (#[trigger] tiles@[a]).0 < (#[trigger] tiles@[b]).0,
            forall|p: int|
                0 <= p < i ==> (tgfs_public(joined_blob(candidates@[p].1, blobs@)) <==> exists|k: int|
                    0 <= k < tiles@.len() && (#[trigger] tiles@[k]).0 == p),
            forall|k: int|
                0 <= k < tiles@.len() ==> tgfs_tile_ok(
                    (#[trigger] tiles@[k]).1,
                    candidates@[tiles@[k].0 as int],
                    blobs@,
                    secret@,
                    public_url@,
                ),
        decreases candidates@.len() - i,
    {
        let d = &candidates[i].1;
        let fid = match d.file_id {
            Some(v) => v,
            None => 0,
        };
        let blob = blobs.get(&fid);
        let ghost old_tiles = tiles@;
        proof {
            assert(candidates@[i as int].1 == *d);
        }
        if is_tgfs_public(blob) {
            let card = TgfsFileCard::from_docs(d, blob, candidates[i].0, 0, secret, public_url);
            let icon = icon_for(card.mime_type.as_str(), card.file_name.as_str());
            let ghost c = card;
            let t = ResultTile {
                source: "tgfs",
                detail_id: card.entry_id,
                icon,
                file_name: card.file_name,
                file_size_fmt: card.file_size,
            };
            tiles.push((i, t));
            proof {
                let k = old_tiles.len() as int;
                assert(tiles@[k].0 == i);
                assert(tgfs_card_ok(c, *d, joined_blob(*d, blobs@), candidates@[i as int].0, 0, secret@, public_url@));
                assert(tile_of(tiles@[k].1, "tgfs", c.entry_id@, c.file_name@, c.file_size@, c.mime_type@));
                assert forall|k2: int| 0 <= k2 < tiles@.len() implies tgfs_tile_ok(
                    (#[trigger] tiles@[k2]).1,
                    candidates@[tiles@[k2].0 as int],
                    blobs@,
                    secret@,
                    public_url@,
                ) by {
                    if k2 < k {
                        assert(tiles@[k2] == old_tiles[k2]);
                    }
                }
                assert forall|p: int|
                    0 <= p < i + 1 implies (tgfs_public(joined_blob(candidates@[p].1, blobs@)) <==> exists|k2: int|
                        0 <= k2 < tiles@.len() && (#[trigger] tiles@[k2]).0 == p) by {
                    if p < i {
                        if exists|k2: int| 0 <= k2 < tiles@.len() && (#[trigger] tiles@[k2]).0 == p {
                            let k2 = choose|k2: int| 0 <= k2 < tiles@.len() && (#[trigger] tiles@[k2]).0 == p;
                            assert(k2 < k);
                            assert(old_tiles[k2].0 == p);
                        }
                        if exists|k2: int| 0 <= k2 < old_tiles.len() && (#[trigger] old_tiles[k2]).0 == p {
                            let k2 = choose|k2: int| 0 <= k2 < old_tiles.len() && (#[trigger] old_tiles[k2]).0 == p;
                            assert(tiles@[k2].0 == p);
                        }
                    }
                }
            }
        } else {
            proof {
                assert forall|p: int|
                    0 <= p < i + 1 implies (tgfs_public(joined_blob(candidates@[p].1, blobs@)) <==> exists|k2: int|
                        0 <= k2 < tiles@.len() && (#[trigger] tiles@[k2]).0 == p) by {
                    if p == i {
                        if exists|k2: int| 0 <= k2 < tiles@.len() && (#[trigger] tiles@[k2]).0 == p {
                            let k2 = choose|k2: int| 0 <= k2 < tiles@.len() && (#[trigger] tiles@[k2]).0 == p;
                            assert(tiles@[k2].0 < i);
                        }
                    }
                }
            }
        }
        i = i + 1;
    }
    tiles
}

/// The detail of a PLGB file.
pub fn plgb_detail(doc: &PlgbFileDoc, fqdn: &str) -> (d: FileDetail)
    ensures
        exists|c: FileCard|
            {
                &&& file_card_ok(c, *doc, 0, fqdn@)
                &&& d.file_name@ == c.file_name@
                &&& d.file_size_fmt@ == c.file_size@
                &&& d.mime_type@ == c.mime_type@
                &&& d.dl_url@ == c.dl_url@
                &&& d.watch_url@ == c.watch_url@
                &&& d.icon == crate::link_list::models::icon_glyph(
                    crate::link_list::models::icon_kind(
                        text::lowercase(c.mime_type@),
                        text::lowercase(crate::link_list::models::after_last_dot(c.file_name@)),
                    ),
                )
            },
{
    let card = FileCard::from_doc(doc, 0, fqdn);
    let icon = icon_for(card.mime_type.as_str(), card.file_name.as_str());
    let ghost c = card;
    FileDetail {
        icon,
        file_name: card.file_name,
        file_size_fmt: card.file_size,
        mime_type: card.mime_type,
        dl_url: card.dl_url,
        watch_url: card.watch_url,
    }
}

/// The detail of a publicly listed TGFS link; none when it is not listed.
pub fn tgfs_detail(
    index_doc: &TgfsIndexDoc,
    blob: &TgfsBlobDoc,
    cluster_idx: usize,
    secret: &[u8],
    public_url: &str,
) -> (r: Option<FileDetail>)
    ensures
        r is Some <==> tgfs_public(Some(*blob)),
        r matches Some(d) ==> exists|c: TgfsFileCard|
            {
                &&& tgfs_card_ok(c, *index_doc, Some(*blob), cluster_idx, 0, secret@, public_url@)
                &&& d.file_name@ == c.file_name@
                &&& d.file_size_fmt@ == c.file_size@
                &&& d.mime_type@ == c.mime_type@
                &&& d.dl_url@ == c.dl_url@
                &&& d.watch_url@ == c.watch_url@
                &&& d.icon == crate::link_list::models::icon_glyph(
                    crate::link_list::models::icon_kind(
                        text::lowercase(c.mime_type@),
                        text::lowercase(crate::link_list::models::after_last_dot(c.file_name@)),
                    ),
                )
            },
{
    if !is_tgfs_public(Some(blob)) {
        return None;
    }
    let card = TgfsFileCard::from_docs(index_doc, Some(blob), cluster_idx, 0, secret, public_url);
    let icon = icon_for(card.mime_type.as_str(), card.file_name.as_str());
    let ghost c = card;
    Some(
        FileDetail {
            icon,
            file_name: card.file_name,
            file_size_fmt: card.file_size,
            mime_type: card.mime_type,
            dl_url: card.dl_url,
            watch_url: card.watch_url,
        },
    )
}

} // verus!
