//! The TGFS "done" page: which reviewed entries it lists, in what order, and its links.

use vstd::prelude::*;
use std::collections::HashMap;
use crate::handlers::done::{PageLink, opt_param, push_opt_param, push_param};
use crate::models;
use crate::text::{self, chars_of, contains_exec, i64_to_string, push_str, string_from, to_lowercase};
use crate::tgfs_models::{TgfsBlobDoc, TgfsDoneStats, TgfsFileCard, TgfsIndexDoc, bool_of, i64_or, tgfs_card_ok};
use crate::tgfs_query_filters::TgfsParsedFilters;
use crate::util::{self, query_string};

verus! {

/// The TGFS done page shows at most this many pages.
pub const MAX_PAGES: i64 = 5;

/// Query parameters of the TGFS done page.
#[derive(Clone, Debug)]
pub struct TgfsDoneQuery {
    pub user_id: String,
    pub bot_id: String,
    pub file_name: String,
    pub forward_from: String,
    pub reviewed_by: String,
    pub status: String,
    pub file_id: String,
    pub size_min: String,
    pub size_max: String,
    pub date_from: String,
    pub date_to: String,
    pub page: String,
    pub page_size: String,
}

/// The query parameters of a TGFS done-page link, in order.
pub open spec fn tgfs_done_params(
    page: i64,
    search_user_id: Seq<char>,
    search_bot_id: Seq<char>,
    search_file_name: Seq<char>,
    search_forward_from: Seq<char>,
    search_reviewed_by: Seq<char>,
    search_status: Seq<char>,
    size_min: i64,
    size_max: i64,
    search_file_id: Seq<char>,
    search_date_from: Seq<char>,
    search_date_to: Seq<char>,
    page_size: i64,
) -> Seq<(Seq<char>, Seq<char>)> {
    seq![("page"@, text::int_decimal(page as int))] + opt_param("user_id"@, search_user_id)
        + opt_param("bot_id"@, search_bot_id) + opt_param("file_name"@, search_file_name)
        + opt_param("forward_from"@, search_forward_from) + opt_param(
        "reviewed_by"@,
        search_reviewed_by,
    ) + opt_param("status"@, search_status) + seq![
        ("size_min"@, text::int_decimal(size_min as int)),
        ("size_max"@, text::int_decimal(size_max as int)),
    ] + opt_param("file_id"@, search_file_id) + opt_param("date_from"@, search_date_from)
        + opt_param("date_to"@, search_date_to) + seq![
        ("page_size"@, text::int_decimal(page_size as int)),
    ]
}

/// Link to one page of the TGFS done page with the current search.
pub fn build_tgfs_done_url(
    page: i64,
    search_user_id: &str,
    search_bot_id: &str,
    search_file_name: &str,
    search_forward_from: &str,
    search_reviewed_by: &str,
    search_status: &str,
    size_min: i64,
    size_max: i64,
    search_file_id: &str,
    search_date_from: &str,
    search_date_to: &str,
    page_size: i64,
) -> (url: String)
    ensures
        url@ == crate::BASE_PATH@ + "/done-tgfs?"@ + util::join_params(
            tgfs_done_params(
                page,
                search_user_id@,
                search_bot_id@,
                search_file_name@,
                search_forward_from@,
                search_reviewed_by@,
                search_status@,
                size_min,
                size_max,
                search_file_id@,
                search_date_from@,
                search_date_to@,
                page_size,
            ),
        ),
{
    let mut params: Vec<(String, String)> = Vec::new();
    push_param(&mut params, "page", i64_to_string(page));
    push_opt_param(&mut params, "user_id", search_user_id);
    push_opt_param(&mut params, "bot_id", search_bot_id);
    push_opt_param(&mut params, "file_name", search_file_name);
    push_opt_param(&mut params, "forward_from", search_forward_from);
    push_opt_param(&mut params, "reviewed_by", search_reviewed_by);
    push_opt_param(&mut params, "status", search_status);
    push_param(&mut params, "size_min", i64_to_string(size_min));
    push_param(&mut params, "size_max", i64_to_string(size_max));
    push_opt_param(&mut params, "file_id", search_file_id);
    push_opt_param(&mut params, "date_from", search_date_from);
    push_opt_param(&mut params, "date_to", search_date_to);
    push_param(&mut params, "page_size", i64_to_string(page_size));
    proof {
        assert(util::params_view(params@) =~= tgfs_done_params(
            page,
            search_user_id@,
            search_bot_id@,
            search_file_name@,
            search_forward_from@,
            search_reviewed_by@,
            search_status@,
            size_min,
            size_max,
            search_file_id@,
            search_date_from@,
            search_date_to@,
            page_size,
        ));
    }
    let query = query_string(params.as_slice());
    let mut url = string_from(crate::BASE_PATH);
    push_str(&mut url, "/done-tgfs?");
    push_str(&mut url, query.as_str());
    url
}

// ---------------------------------------------------------------------------
// Which entries are listed
// ---------------------------------------------------------------------------

/// The blob document joined with an index document: the one stored under its
/// file id (0 when it has none).
pub open spec fn joined_blob(index_doc: TgfsIndexDoc, blobs: Map<i64, TgfsBlobDoc>) -> Option<TgfsBlobDoc> {
    let fid = i64_or(index_doc.file_id, 0);
    if blobs.contains_key(fid) {
        Some(blobs[fid])
    } else {
        None
    }
}

/// Whether a joined blob passes the done page's filters, the names already
/// lower-cased: it has been reviewed, its outcome is the one asked for when
/// `status` is `accepted` or `rejected`, and, when `by_reviewer` is set, its
/// lower-cased `reviewed_by` contains the lower-cased name searched for.
pub open spec fn blob_passes(
    b: TgfsBlobDoc,
    status: Seq<char>,
    by_reviewer: bool,
    wanted_lower: Seq<char>,
    reviewer_lower: Seq<char>,
) -> bool {
    let restricted = bool_of(b.is_restricted);
    &&& b.has_reviewed_at
    &&& !(status == "accepted"@ && restricted)
    &&& !(status == "rejected"@ && !restricted)
    &&& (by_reviewer ==> text::contains(reviewer_lower, wanted_lower))
}

/// Whether an index entry is listed on the done page: its blob passes the filters
/// for the form's status and, when a moderator is searched for, for that name
/// and the blob's `reviewed_by`, both lower-cased.
pub open spec fn done_listed(
    index_doc: TgfsIndexDoc,
    blobs: Map<i64, TgfsBlobDoc>,
    status: Seq<char>,
    reviewed_by: Seq<char>,
) -> bool {
    match joined_blob(index_doc, blobs) {
        None => false,
        Some(b) => blob_passes(
            b,
            status,
            reviewed_by.len() > 0,
            text::lowercase(reviewed_by),
            text::lowercase(models::str_or(b.reviewed_by, Seq::empty())),
        ),
    }
}

/// When a listed entry was reviewed, in unix milliseconds (0 when unknown).
pub open spec fn review_millis(index_doc: TgfsIndexDoc, blobs: Map<i64, TgfsBlobDoc>) -> i64 {
    match joined_blob(index_doc, blobs) {
        Some(b) => i64_or(b.reviewed_at_millis, 0),
        None => 0,
    }
}

/// `(review time, position)` of each listed entry among the first `n` candidates,
/// in candidate order.
pub open spec fn listed_entries(
    candidates: Seq<(usize, TgfsIndexDoc)>,
    blobs: Map<i64, TgfsBlobDoc>,
    status: Seq<char>,
    reviewed_by: Seq<char>,
    n: int,
) -> Seq<(i64, usize)>
    decreases n,
{
    if n <= 0 {
        Seq::empty()
    } else {
        let rest = listed_entries(candidates, blobs, status, reviewed_by, n - 1);
        let d = candidates[n - 1].1;
        if done_listed(d, blobs, status, reviewed_by) {
            rest.push((review_millis(d, blobs), (n - 1) as usize))
        } else {
            rest
        }
    }
}

proof fn lemma_listed_entries_positions(
    candidates: Seq<(usize, TgfsIndexDoc)>,
    blobs: Map<i64, TgfsBlobDoc>,
    status: Seq<char>,
    reviewed_by: Seq<char>,
    n: int,
)
    requires
        0 <= n <= candidates.len(),
        candidates.len() <= usize::MAX,
    ensures
        forall|k: int|
            0 <= k < listed_entries(candidates, blobs, status, reviewed_by, n).len() ==> (
            #[trigger] listed_entries(candidates, blobs, status, reviewed_by, n)[k]).1 < n,
        forall|k: int, l: int|
            0 <= k < l < listed_entries(candidates, blobs, status, reviewed_by, n).len() ==> (
            #[trigger] listed_entries(candidates, blobs, status, reviewed_by, n)[k]).1 < (
            #[trigger] listed_entries(candidates, blobs, status, reviewed_by, n)[l]).1,
    decreases n,
{
    if n > 0 {
        lemma_listed_entries_positions(candidates, blobs, status, reviewed_by, n - 1);
        let rest = listed_entries(candidates, blobs, status, reviewed_by, n - 1);
        let cur = listed_entries(candidates, blobs, status, reviewed_by, n);
        assert forall|k: int| 0 <= k < cur.len() implies (#[trigger] cur[k]).1 < n by {
            if k < rest.len() {
                assert(cur[k] == rest[k]);
            }
        }
        assert forall|k: int, l: int| 0 <= k < l < cur.len() implies (#[trigger] cur[k]).1 < (
        #[trigger] cur[l]).1 by {
            assert(cur[k] == rest[k]);
            if l < rest.len() {
                assert(cur[l] == rest[l]);
            }
        }
    }
}

/// Whether a blob passes the done page's filters (see [`blob_passes`]), given the
/// form's status field, whether a moderator is searched for, and the searched name
/// and the blob's `reviewed_by`, both already lower-cased.
pub fn blob_passes_lowered(
    b: &TgfsBlobDoc,
    search_status: &str,
    by_reviewer: bool,
    wanted_lower: &str,
    reviewer_lower: &str,
) -> (r: bool)
    ensures
        r == blob_passes(*b, search_status@, by_reviewer, wanted_lower@, reviewer_lower@),
{
    let status = chars_of(search_status);
    let accepted = chars_of("accepted");
    let rejected = chars_of("rejected");
    let only_accepted = text::chars_eq(status.as_slice(), accepted.as_slice());
    let only_rejected = text::chars_eq(status.as_slice(), rejected.as_slice());
    let restricted = b.is_restricted == Some(true);
    let mut ok = b.has_reviewed_at;
    if only_accepted && restricted {
        ok = false;
    }
    if only_rejected && !restricted {
        ok = false;
    }
    if ok && by_reviewer {
        let rb = chars_of(reviewer_lower);
        ok = contains_exec(rb.as_slice(), wanted_lower);
    }
    ok
}

/// The candidates listed on the done page, as `(review time, position)` pairs in
/// candidate order; `search_status` and `search_reviewed_by` are the trimmed
/// form fields.
pub fn select_reviewed(
    candidates: &[(usize, TgfsIndexDoc)],
    blobs: &HashMap<i64, TgfsBlobDoc>,
    search_status: &str,
    search_reviewed_by: &str,
) -> (r: Vec<(i64, usize)>)
    ensures
        r@ == listed_entries(
            candidates@,
            blobs@,
            search_status@,
            search_reviewed_by@,
            candidates@.len() as int,
        ),
        positions_increasing(r@),
        forall|k: int| 0 <= k < r@.len() ==> (#[trigger] r@[k]).1 < candidates@.len(),
{
    broadcast use vstd::std_specs::hash::group_hash_axioms;

    let wanted = to_lowercase(search_reviewed_by);
    let mut r: Vec<(i64, usize)> = Vec::new();
    let mut i: usize = 0;
    while i < candidates.len()
        invariant
            i <= candidates@.len(),
            wanted@ == text::lowercase(search_reviewed_by@),
            r@ == listed_entries(candidates@, blobs@, search_status@, search_reviewed_by@, i as int),
        decreases candidates@.len() - i,
    {
        let d = &candidates[i].1;
        let fid = match d.file_id {
            Some(v) => v,
            None => 0,
        };
        let listed = match blobs.get(&fid) {
            None => None,
            Some(b) => {
                let by_reviewer = !search_reviewed_by.is_empty();
                let rb_lower = if by_reviewer {
                    let rb = models::string_or_empty(&b.reviewed_by);
                    to_lowercase(rb.as_str())
                } else {
                    String::new()
                };
                proof {
                    assert(by_reviewer == (search_reviewed_by@.len() > 0));
                }
                if blob_passes_lowered(b, search_status, by_reviewer, wanted.as_str(), rb_lower.as_str()) {
                    Some(
                        match b.reviewed_at_millis {
                            Some(t) => t,
                            None => 0,
                        },
                    )
                } else {
                    None
                }
            },
        };
        proof {
            assert(candidates@[i as int].1 == *d);
        }
        match listed {
            Some(t) => {
                r.push((t, i));
            },
            None => {},
        }
        i = i + 1;
    }
    proof {
        lemma_listed_entries_positions(
            candidates@,
            blobs@,
            search_status@,
            search_reviewed_by@,
            candidates@.len() as int,
        );
    }
    r
}

// ---------------------------------------------------------------------------
// Most recently reviewed first
// ---------------------------------------------------------------------------

/// `a` comes before `b`: reviewed later, or at the same time and earlier among
/// the candidates (the sort is stable).
pub open spec fn review_before(a: (i64, usize), b: (i64, usize)) -> bool {
    a.0 > b.0 || (a.0 == b.0 && a.1 < b.1)
}

/// Every entry comes before every later one.
pub open spec fn review_sorted(s: Seq<(i64, usize)>) -> bool {
    forall|i: int, j: int| 0 <= i < j < s.len() ==> review_before(#[trigger] s[i], #[trigger] s[j])
}

/// Positions strictly increase.
pub open spec fn positions_increasing(s: Seq<(i64, usize)>) -> bool {
    forall|i: int, j: int| 0 <= i < j < s.len() ==> (#[trigger] s[i]).1 < (#[trigger] s[j]).1
}

/// Sorts listed entries most recently reviewed first, keeping candidate order
/// among equal review times.
pub fn sort_by_review_time(v: &[(i64, usize)]) -> (r: Vec<(i64, usize)>)
    requires
        positions_increasing(v@),
    ensures
        r@.len() == v@.len(),
        forall|e: (i64, usize)| r@.contains(e) <==> v@.contains(e),
        review_sorted(r@),
{
    let mut r: Vec<(i64, usize)> = Vec::new();
    let mut i: usize = 0;
    while i < v.len()
        invariant
            i <= v@.len(),
            positions_increasing(v@),
            r@.len() == i,
            forall|e: (i64, usize)| r@.contains(e) <==> v@.take(i as int).contains(e),
            review_sorted(r@),
        decreases v@.len() - i,
    {
        let x = v[i];
        let mut j: usize = 0;
        while j < r.len() && r[j].0 >= x.0
            invariant
                j <= r@.len(),
                forall|k: int| 0 <= k < j ==> (#[trigger] r@[k]).0 >= x.0,
            decreases r@.len() - j,
        {
            j = j + 1;
        }
        proof {
            assert forall|k: int| 0 <= k < r@.len() implies (#[trigger] r@[k]).1 < x.1 by {
                assert(r@.contains(r@[k]));
                assert(v@.take(i as int).contains(r@[k]));
                let m = choose|m: int| 0 <= m < i && v@.take(i as int)[m] == r@[k];
                assert(v@[m] == r@[k]);
                assert(v@[m].1 < v@[i as int].1);
            }
            if j < r@.len() {
                assert forall|k: int| j <= k < r@.len() implies (#[trigger] r@[k]).0 < x.0 by {
                    if j < k {
                        assert(review_before(r@[j as int], r@[k]));
                    }
                }
            }
        }
        let ghost old_r = r@;
        r.insert(j, x);
        proof {
            assert(r@ == old_r.insert(j as int, x));
            assert(v@.take(i + 1) == v@.take(i as int).push(x));
            let t0 = v@.take(i as int);
            let t1 = v@.take(i + 1);
            assert forall|e: (i64, usize)| r@.contains(e) implies t1.contains(e) by {
                let m = choose|m: int| 0 <= m < r@.len() && r@[m] == e;
                if m == j {
                    assert(t1[i as int] == e);
                } else {
                    if m < j {
                        assert(old_r[m] == e);
                    } else {
                        assert(old_r[m - 1] == e);
                    }
                    assert(old_r.contains(e));
                    assert(t0.contains(e));
                    let w = choose|w: int| 0 <= w < t0.len() && t0[w] == e;
                    assert(t1[w] == e);
                }
            }
            assert forall|e: (i64, usize)| t1.contains(e) implies r@.contains(e) by {
                let w = choose|w: int| 0 <= w < t1.len() && t1[w] == e;
                if w == i {
                    assert(r@[j as int] == e);
                } else {
                    assert(t0[w] == e);
                    assert(t0.contains(e));
                    assert(old_r.contains(e));
                    let m = choose|m: int| 0 <= m < old_r.len() && old_r[m] == e;
                    if m < j {
                        assert(r@[m] == e);
                    } else {
                        assert(r@[m + 1] == e);
                    }
                }
            }
            assert forall|a: int, b: int| 0 <= a < b < r@.len() implies review_before(
                #[trigger] r@[a],
                #[trigger] r@[b],
            ) by {
                if b < j {
                    assert(review_before(old_r[a], old_r[b]));
                } else if b == j {
                    assert(old_r[a].0 >= x.0);
                    assert(old_r[a].1 < x.1);
                } else if a == j {
                    assert(old_r[b - 1].0 < x.0);
                } else if a < j {
                    assert(review_before(old_r[a], old_r[b - 1]));
                } else {
                    assert(review_before(old_r[a - 1], old_r[b - 1]));
                }
            }
        }
        i = i + 1;
    }
    proof {
        assert(v@.take(v@.len() as int) == v@);
    }
    r
}

// ---------------------------------------------------------------------------
// The listing, its page and its counts
// ---------------------------------------------------------------------------

/// The done page's entries, most recently reviewed first: every listed candidate
/// exactly once, as `(review time, position)`.
pub fn tgfs_done_order(
    candidates: &[(usize, TgfsIndexDoc)],
    blobs: &HashMap<i64, TgfsBlobDoc>,
    search_status: &str,
    search_reviewed_by: &str,
) -> (r: Vec<(i64, usize)>)
    ensures
        r@.len() == listed_entries(
            candidates@,
            blobs@,
            search_status@,
            search_reviewed_by@,
            candidates@.len() as int,
        ).len(),
        forall|e: (i64, usize)|
            r@.contains(e) <==> listed_entries(
                candidates@,
                blobs@,
                search_status@,
                search_reviewed_by@,
                candidates@.len() as int,
            ).contains(e),
        review_sorted(r@),
        forall|k: int| 0 <= k < r@.len() ==> (#[trigger] r@[k]).1 < candidates@.len(),
{
    let listed = select_reviewed(candidates, blobs, search_status, search_reviewed_by);
    let r = sort_by_review_time(listed.as_slice());
    proof {
        assert forall|k: int| 0 <= k < r@.len() implies (#[trigger] r@[k]).1 < candidates@.len() by {
            assert(r@.contains(r@[k]));
            let m = choose|m: int| 0 <= m < listed@.len() && listed@[m] == r@[k];
        }
    }
    r
}

/// Whether a listed entry was accepted (its blob is not restricted).
pub open spec fn entry_accepted(
    candidates: Seq<(usize, TgfsIndexDoc)>,
    blobs: Map<i64, TgfsBlobDoc>,
    e: (i64, usize),
) -> bool {
    match joined_blob(candidates[e.1 as int].1, blobs) {
        Some(b) => !bool_of(b.is_restricted),
        None => true,
    }
}

/// How many of the first `n` entries were accepted.
pub open spec fn accepted_count(
    candidates: Seq<(usize, TgfsIndexDoc)>,
    blobs: Map<i64, TgfsBlobDoc>,
    order: Seq<(i64, usize)>,
    n: int,
) -> nat
    decreases n,
{
    if n <= 0 {
        0
    } else {
        accepted_count(candidates, blobs, order, n - 1) + (if entry_accepted(candidates, blobs, order[n - 1]) {
            1nat
        } else {
            0nat
        })
    }
}

/// Number of accepted entries in `order`.
pub fn count_accepted(
    candidates: &[(usize, TgfsIndexDoc)],
    blobs: &HashMap<i64, TgfsBlobDoc>,
    order: &[(i64, usize)],
) -> (r: usize)
    requires
        forall|k: int| 0 <= k < order@.len() ==> (#[trigger] order@[k]).1 < candidates@.len(),
    ensures
        r == accepted_count(candidates@, blobs@, order@, order@.len() as int),
        r <= order@.len(),
{
    broadcast use vstd::std_specs::hash::group_hash_axioms;

    let mut r: usize = 0;
    let mut i: usize = 0;
    while i < order.len()
        invariant
            i <= order@.len(),
            forall|k: int| 0 <= k < order@.len() ==> (#[trigger] order@[k]).1 < candidates@.len(),
            r == accepted_count(candidates@, blobs@, order@, i as int),
            r <= i,
        decreases order@.len() - i,
    {
        let pos = order[i].1;
        assert(pos < candidates.len());
        let d = &candidates[pos].1;
        let fid = match d.file_id {
            Some(v) => v,
            None => 0,
        };
        let accepted = match blobs.get(&fid) {
            Some(b) => b.is_restricted != Some(true),
            None => true,
        };
        if accepted {
            r = r + 1;
        }
        i = i + 1;
    }
    r
}

/// The part of the listing a page shows, as `start..end`: empty when the page
/// starts past the end.
pub open spec fn spec_page_bounds(page: i64, page_size: i64, len: int) -> (int, int) {
    let start = (page - 1) * page_size;
    if start < len {
        (start, if start + page_size < len {
            start + page_size
        } else {
            len
        })
    } else {
        (start, start)
    }
}

/// Law: pages cut the listing into consecutive slices of `page_size` entries. Page
/// `page` starts after the `page - 1` pages before it and holds at most
/// `page_size` entries; when it starts inside the listing it ends at the
/// listing's end or holds exactly `page_size` entries, ending where page
/// `page + 1` starts; when it starts past the end it is empty.
pub proof fn lemma_page_bounds(page: i64, page_size: i64, len: int)
    requires
        1 <= page,
        1 <= page_size,
        0 <= len,
    ensures
        ({
            let (start, end) = spec_page_bounds(page, page_size, len);
            &&& start == (page - 1) * page_size
            &&& start <= end
            &&& end - start <= page_size
            &&& start < len ==> (end <= len && (end == len || end - start == page_size))
            &&& start < len && end < len ==> end == page * page_size
            &&& start >= len ==> end == start
        }),
{
    assert((page - 1) * page_size + page_size == page * page_size) by (nonlinear_arith);
}

/// `start..end` of page `page` of `page_size` entries among `len`.
pub fn page_bounds(page: i64, page_size: i64, len: usize) -> (r: (usize, usize))
    requires
        1 <= page <= MAX_PAGES,
        1 <= page_size <= 100,
    ensures
        r.0 == spec_page_bounds(page, page_size, len as int).0,
        r.1 == spec_page_bounds(page, page_size, len as int).1,
        r.0 <= r.1,
        r.1 == r.0 || r.1 <= len,
{
    assert(0 <= (page - 1) * page_size <= 400) by (nonlinear_arith)
        requires
            1 <= page <= MAX_PAGES,
            1 <= page_size <= 100,
    ;
    let start = ((page - 1) * page_size) as usize;
    if start < len {
        let end = if start + (page_size as usize) < len {
            start + (page_size as usize)
        } else {
            len
        };
        (start, end)
    } else {
        (start, start)
    }
}

/// The cards of `order[start..end]`, numbered from `start + 1`.
pub fn tgfs_done_cards(
    candidates: &[(usize, TgfsIndexDoc)],
    blobs: &HashMap<i64, TgfsBlobDoc>,
    order: &[(i64, usize)],
    start: usize,
    end: usize,
    secret: &[u8],
    public_url: &str,
) -> (cards: Vec<TgfsFileCard>)
    requires
        start <= end,
        end == start || end <= order@.len(),
        forall|k: int| 0 <= k < order@.len() ==> (#[trigger] order@[k]).1 < candidates@.len(),
    ensures
        cards@.len() == end - start,
        forall|k: int|
            0 <= k < cards@.len() ==> {
                let c = #[trigger] candidates@[order@[start + k].1 as int];
                tgfs_card_ok(
                    cards@[k],
                    c.1,
                    joined_blob(c.1, blobs@),
                    c.0,
                    (start + k + 1) as usize,
                    secret@,
                    public_url@,
                )
            },
{
    broadcast use vstd::std_specs::hash::group_hash_axioms;

    let mut cards: Vec<TgfsFileCard> = Vec::new();
    let mut i: usize = start;
    while i < end
        invariant
            start <= i <= end,
            end == start || end <= order@.len(),
            forall|k: int| 0 <= k < order@.len() ==> (#[trigger] order@[k]).1 < candidates@.len(),
            cards@.len() == i - start,
            forall|k: int|
                0 <= k < cards@.len() ==> {
                    let c = #[trigger] candidates@[order@[start + k].1 as int];
                    tgfs_card_ok(
                        cards@[k],
                        c.1,
                        joined_blob(c.1, blobs@),
                        c.0,
                        (start + k + 1) as usize,
                        secret@,
                        public_url@,
                    )
                },
        decreases end - i,
    {
        let pos = order[i].1;
        let cluster = candidates[pos].0;
        let d = &candidates[pos].1;
        let fid = match d.file_id {
            Some(v) => v,
            None => 0,
        };
        let card = TgfsFileCard::from_docs(d, blobs.get(&fid), cluster, i + 1, secret, public_url);
        proof {
            let c = candidates@[order@[i as int].1 as int];
            assert(c.1 == *d);
            assert(c.0 == cluster);
        }
        cards.push(card);
        proof {
            let k = (i - start) as int;
            assert(start + k == i);
        }
        i = i + 1;
    }
    cards
}

// ---------------------------------------------------------------------------
// Heading and links
// ---------------------------------------------------------------------------

/// Whether the TGFS done page has a search beyond its defaults.
pub open spec fn spec_tgfs_done_has_filter(
    search_reviewed_by: Seq<char>,
    search_status: Seq<char>,
    search_user_id: Seq<char>,
    search_bot_id: Seq<char>,
    search_file_name: Seq<char>,
    search_forward_from: Seq<char>,
    size_filter_active: bool,
    date_filter_active: bool,
    search_file_id: Seq<char>,
) -> bool {
    search_reviewed_by.len() > 0 || search_status.len() > 0 || search_user_id.len() > 0
        || search_bot_id.len() > 0 || search_file_name.len() > 0 || search_forward_from.len() > 0
        || size_filter_active || date_filter_active || search_file_id.len() > 0
}

/// Whether the TGFS done page has a search beyond its defaults: then it shows
/// statistics and a heading naming the search.
pub fn tgfs_done_has_filter(
    search_reviewed_by: &str,
    search_status: &str,
    parsed: &TgfsParsedFilters,
) -> (r: bool)
    ensures
        r == spec_tgfs_done_has_filter(
            search_reviewed_by@,
            search_status@,
            parsed.search_user_id@,
            parsed.search_bot_id@,
            parsed.search_file_name@,
            parsed.search_forward_from@,
            parsed.size_filter_active,
            parsed.date_filter_active,
            parsed.search_file_id@,
        ),
{
    !search_reviewed_by.is_empty() || !search_status.is_empty()
        || !parsed.search_user_id.as_str().is_empty() || !parsed.search_bot_id.as_str().is_empty()
        || !parsed.search_file_name.as_str().is_empty()
        || !parsed.search_forward_from.as_str().is_empty() || parsed.size_filter_active
        || parsed.date_filter_active || !parsed.search_file_id.as_str().is_empty()
}

/// The TGFS done page's heading: with a search, the user, bot and quoted file
/// name searched for; else the page size.
pub open spec fn spec_tgfs_done_heading(
    has_extra_filter: bool,
    search_user_id: Seq<char>,
    search_bot_id: Seq<char>,
    search_file_name: Seq<char>,
    page_size: i64,
) -> Seq<char> {
    if has_extra_filter {
        "\u{2705} Reviewed TGFS Files"@ + (if search_user_id.len() > 0 {
            " \u{2013} User "@ + search_user_id
        } else {
            Seq::empty()
        }) + (if search_bot_id.len() > 0 {
            " \u{2013} Bot "@ + search_bot_id
        } else {
            Seq::empty()
        }) + (if search_file_name.len() > 0 {
            " + \""@ + search_file_name + "\""@
        } else {
            Seq::empty()
        })
    } else {
        "\u{2705} Reviewed TGFS Files (most recent "@ + text::int_decimal(page_size as int) + ")"@
    }
}

/// The heading of the TGFS done page.
pub fn tgfs_done_heading(
    has_extra_filter: bool,
    search_user_id: &str,
    search_bot_id: &str,
    search_file_name: &str,
    page_size: i64,
) -> (h: String)
    ensures
        h@ == spec_tgfs_done_heading(has_extra_filter, search_user_id@, search_bot_id@, search_file_name@, page_size),
{
    if has_extra_filter {
        let mut h = string_from("\u{2705} Reviewed TGFS Files");
        if !search_user_id.is_empty() {
            push_str(&mut h, " \u{2013} User ");
            push_str(&mut h, search_user_id);
        }
        if !search_bot_id.is_empty() {
            push_str(&mut h, " \u{2013} Bot ");
            push_str(&mut h, search_bot_id);
        }
        if !search_file_name.is_empty() {
            push_str(&mut h, " + \"");
            push_str(&mut h, search_file_name);
            push_str(&mut h, "\"");
        }
        h
    } else {
        let mut h = string_from("\u{2705} Reviewed TGFS Files (most recent ");
        let n = i64_to_string(page_size);
        push_str(&mut h, n.as_str());
        push_str(&mut h, ")");
        h
    }
}

/// The search part of a TGFS done-page link.
pub struct TgfsDoneSearch<'a> {
    pub search_user_id: &'a str,
    pub search_bot_id: &'a str,
    pub search_file_name: &'a str,
    pub search_forward_from: &'a str,
    pub search_reviewed_by: &'a str,
    pub search_status: &'a str,
    pub size_min: i64,
    pub size_max: i64,
    pub search_file_id: &'a str,
    pub search_date_from: &'a str,
    pub search_date_to: &'a str,
}

/// The link of page `p` with search `s`.
pub open spec fn tgfs_done_href(p: i64, s: TgfsDoneSearch, page_size: i64) -> Seq<char> {
    crate::BASE_PATH@ + "/done-tgfs?"@ + util::join_params(
        tgfs_done_params(
            p,
            s.search_user_id@,
            s.search_bot_id@,
            s.search_file_name@,
            s.search_forward_from@,
            s.search_reviewed_by@,
            s.search_status@,
            s.size_min,
            s.size_max,
            s.search_file_id@,
            s.search_date_from@,
            s.search_date_to@,
            page_size,
        ),
    )
}

/// Links to pages `1..=total_pages`, the current one marked active.
pub fn tgfs_done_page_links(total_pages: i64, page: i64, s: &TgfsDoneSearch, page_size: i64) -> (links: Vec<PageLink>)
    requires
        0 <= total_pages <= 1000,
    ensures
        links@.len() == total_pages,
        forall|i: int|
            0 <= i < links@.len() ==> {
                &&& (#[trigger] links@[i]).number == i + 1
                &&& links@[i].active == (i + 1 == page)
                &&& links@[i].href@ == tgfs_done_href((i + 1) as i64, *s, page_size)
            },
{
    let mut links: Vec<PageLink> = Vec::new();
    let mut p: i64 = 1;
    while p <= total_pages
        invariant
            1 <= p <= total_pages + 1,
            total_pages <= 1000,
            links@.len() == p - 1,
            forall|i: int|
                0 <= i < links@.len() ==> {
                    &&& (#[trigger] links@[i]).number == i + 1
                    &&& links@[i].active == (i + 1 == page)
                    &&& links@[i].href@ == tgfs_done_href((i + 1) as i64, *s, page_size)
                },
        decreases total_pages + 1 - p,
    {
        let href = build_tgfs_done_url(
            p,
            s.search_user_id,
            s.search_bot_id,
            s.search_file_name,
            s.search_forward_from,
            s.search_reviewed_by,
            s.search_status,
            s.size_min,
            s.size_max,
            s.search_file_id,
            s.search_date_from,
            s.search_date_to,
            page_size,
        );
        links.push(PageLink { number: p, href, active: p == page });
        p = p + 1;
    }
    links
}


/// The TGFS done page's statistics for a search: of the `total` listed entries,
/// `accepted` were accepted and the rest rejected; counts with thousands
/// separators, shares in percent with one decimal.
pub fn tgfs_done_stats(parsed: &TgfsParsedFilters, search_reviewed_by: &str, total: i64, accepted: i64) -> (s:
    TgfsDoneStats)
    requires
        0 <= accepted <= total,
    ensures
        s.search_user_id@ == crate::handlers::review::users_text(parsed.actual_user_ids@),
        s.search_bot_id@ == crate::handlers::tgfs_review::bot_text(parsed.actual_bot_id),
        s.search_file_name@ == parsed.search_file_name@,
        s.search_reviewed_by@ == search_reviewed_by@,
        s.size_filter_active == parsed.size_filter_active,
        s.search_size_min == parsed.search_size_min,
        s.search_size_max == parsed.search_size_max,
        s.date_filter_active == parsed.date_filter_active,
        s.search_date_from@ == parsed.search_date_from@,
        s.search_date_to@ == parsed.search_date_to@,
        s.is_exclusion == parsed.is_exclusion,
        s.total_fmt@ == util::spec_commas(total as int),
        s.accepted_fmt@ == util::spec_commas(accepted as int),
        s.rejected_fmt@ == util::spec_commas(total - accepted),
        s.acceptance_rate_fmt@ == util::spec_fmt_pct1(accepted, total),
        s.rejection_rate_fmt@ == util::spec_fmt_pct1((total - accepted) as i64, total),
{
    let rejected = total - accepted;
    TgfsDoneStats {
        search_user_id: text::join_ids(parsed.actual_user_ids.as_slice()),
        search_bot_id: crate::handlers::tgfs_review::bot_id_text(parsed.actual_bot_id),
        search_file_name: parsed.search_file_name.clone(),
        search_reviewed_by: string_from(search_reviewed_by),
        size_filter_active: parsed.size_filter_active,
        search_size_min: parsed.search_size_min,
        search_size_max: parsed.search_size_max,
        date_filter_active: parsed.date_filter_active,
        search_date_from: parsed.search_date_from.clone(),
        search_date_to: parsed.search_date_to.clone(),
        is_exclusion: parsed.is_exclusion,
        total_fmt: util::commas(total),
        accepted_fmt: util::commas(accepted),
        rejected_fmt: util::commas(rejected),
        acceptance_rate_fmt: util::fmt_pct1(accepted, total),
        rejection_rate_fmt: util::fmt_pct1(rejected, total),
    }
}

} // verus!
