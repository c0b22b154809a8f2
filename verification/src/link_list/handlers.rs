//! Search page pagination and links.

use vstd::prelude::*;
use crate::handlers::common::{self, page_count, page_number};
use crate::text::{self, i64_to_string, parse_trimmed_i64, push_str, string_from};
use crate::util::{self, url_encode};

verus! {

/// Results per page on a narrow screen.
pub const PAGE_SIZE_MOBILE: i64 = 15;

/// Results per page on a wide screen.
pub const PAGE_SIZE_DESKTOP: i64 = 30;

/// How many page numbers the pagination shows at once.
pub const PAGE_WINDOW: i64 = 4;

/// One numbered pagination link.
#[derive(Clone, Debug)]
pub struct PageLink {
    pub number: i64,
    pub href: String,
    pub active: bool,
}

/// Query parameters of the search page.
#[derive(Clone, Debug)]
pub struct SearchQuery {
    pub q: String,
    pub page: String,
    pub page_size: String,
}

/// `{BASE_PATH_LIST}?q={query}&page={page}&page_size={page_size}`, the query
/// percent-encoded.
pub open spec fn spec_search_url(query: Seq<char>, page: i64, page_size: i64) -> Seq<char> {
    crate::BASE_PATH_LIST@ + "?q="@ + util::url_encoded(query) + "&page="@ + text::int_decimal(page as int)
        + "&page_size="@ + text::int_decimal(page_size as int)
}

/// Link to one page of results for `query`.
pub fn build_search_url(query: &str, page: i64, page_size: i64) -> (url: String)
    ensures
        url@ == spec_search_url(query@, page, page_size),
{
    let mut url = string_from(crate::BASE_PATH_LIST);
    push_str(&mut url, "?q=");
    let q = url_encode(query);
    push_str(&mut url, q.as_str());
    push_str(&mut url, "&page=");
    let p = i64_to_string(page);
    push_str(&mut url, p.as_str());
    push_str(&mut url, "&page_size=");
    let n = i64_to_string(page_size);
    push_str(&mut url, n.as_str());
    url
}

/// The page size a `page_size` value selects: the desktop size when it says so,
/// else the mobile size.
pub open spec fn spec_search_page_size(raw: Seq<char>) -> i64 {
    if text::parse_i64(text::trim(raw)) == Some(PAGE_SIZE_DESKTOP) {
        PAGE_SIZE_DESKTOP
    } else {
        PAGE_SIZE_MOBILE
    }
}

/// The page size of the search page.
pub fn search_page_size(raw: &str) -> (r: i64)
    ensures
        r == spec_search_page_size(raw@),
{
    match parse_trimmed_i64(raw) {
        Some(v) => if v == PAGE_SIZE_DESKTOP {
            PAGE_SIZE_DESKTOP
        } else {
            PAGE_SIZE_MOBILE
        },
        None => PAGE_SIZE_MOBILE,
    }
}

/// The pagination of the search page.
pub struct SearchPagination {
    pub total_pages: i64,
    pub page: i64,
    /// The results shown are `start..end`.
    pub start: usize,
    pub end: usize,
    pub pages: Vec<PageLink>,
    pub prev_href: Option<String>,
    pub next_href: Option<String>,
}

/// The number of pages: enough for every result, at least one.
pub open spec fn spec_total_pages(has_query: bool, total: int, page_size: i64) -> i64 {
    if has_query {
        common::spec_page_count(total, page_size as int) as i64
    } else {
        1
    }
}

/// The first page number of the window holding `page`.
pub open spec fn window_start(page: i64) -> int {
    ((page - 1) / (PAGE_WINDOW as int)) * PAGE_WINDOW + 1
}

/// The last page number of the window holding `page`.
pub open spec fn window_end(page: i64, total_pages: i64) -> int {
    if window_start(page) + PAGE_WINDOW - 1 < total_pages {
        window_start(page) + PAGE_WINDOW - 1
    } else {
        total_pages as int
    }
}

/// The results page `page` shows, as `start..end` (empty past the end).
pub open spec fn page_range(page: i64, page_size: i64, total: int) -> (int, int) {
    let start = (page - 1) * page_size;
    if start < total {
        (start, if start + page_size < total {
            start + page_size
        } else {
            total
        })
    } else {
        (start, start)
    }
}

/// Law: with a query, the pages `1..=total_pages` taken in order show every result
/// exactly once: the first starts at 0, each ends where the next starts, the last
/// ends at the last result, and none is empty (unless there are no results).
pub proof fn lemma_search_pages_cover(total: int, page_size: i64)
    requires
        0 <= total <= i64::MAX - PAGE_SIZE_DESKTOP,
        page_size == PAGE_SIZE_MOBILE || page_size == PAGE_SIZE_DESKTOP,
    ensures
        ({
            let tp = spec_total_pages(true, total, page_size);
            &&& tp >= 1
            &&& page_range(1, page_size, total).0 == 0
            &&& page_range(tp, page_size, total).1 == total
            &&& forall|p: i64|
                1 <= p < tp ==> #[trigger] page_range(p, page_size, total).1 == page_range(
                    (p + 1) as i64,
                    page_size,
                    total,
                ).0
            &&& forall|p: i64|
                1 <= p <= tp && total > 0 ==> #[trigger] page_range(p, page_size, total).0 < page_range(
                    p,
                    page_size,
                    total,
                ).1
        }),
{
    let ps = page_size as int;
    let n = (total + ps - 1) / ps;
    let tp = spec_total_pages(true, total, page_size);
    assert(n * ps >= total && (n - 1) * ps < total || total == 0) by (nonlinear_arith)
        requires
            n == (total + ps - 1) / ps,
            ps >= 1,
            total >= 0,
    ;
    assert(n <= total || n <= 1) by (nonlinear_arith)
        requires
            n == (total + ps - 1) / ps,
            ps >= 1,
            total >= 0,
    ;
    assert(total > 0 ==> n >= 1) by (nonlinear_arith)
        requires
            n == (total + ps - 1) / ps,
            ps >= 1,
    ;
    assert(total > 0 ==> tp == n);
    assert(total > 0 ==> (n - 1) * ps < total);
    assert forall|p: i64| 1 <= p < tp implies #[trigger] page_range(p, page_size, total).1 == page_range(
        (p + 1) as i64,
        page_size,
        total,
    ).0 by {
        assert(p * ps < total) by (nonlinear_arith)
            requires
                1 <= p,
                p + 1 <= n,
                (n - 1) * ps < total,
                ps >= 1,
        ;
        assert((p - 1) * ps + ps == p * ps) by (nonlinear_arith);
        assert(((p + 1) as i64 - 1) * ps == p * ps);
    }
    assert forall|p: i64| 1 <= p <= tp && total > 0 implies #[trigger] page_range(p, page_size, total).0
        < page_range(p, page_size, total).1 by {
        assert((p - 1) * ps < total) by (nonlinear_arith)
            requires
                1 <= p,
                p <= n || p == 1,
                (n - 1) * ps < total,
                total > 0,
                ps >= 1,
        ;
    }
    if total > 0 {
        assert((tp - 1) * ps + ps >= total) by (nonlinear_arith)
            requires
                tp == n,
                n * ps >= total,
        ;
    }
}

/// What the search page's pagination shows for `total` results: the page asked
/// for within `1..=total_pages`, the results of that page, the window of
/// `PAGE_WINDOW` page numbers holding it, and previous/next links when there are
/// such pages.
pub open spec fn search_pagination_ok(
    r: SearchPagination,
    query: Seq<char>,
    has_query: bool,
    total: int,
    page_raw: Seq<char>,
    page_size: i64,
) -> bool {
    let tp = spec_total_pages(has_query, total, page_size);
    &&& r.total_pages == tp
    &&& r.page == common::spec_page_number(page_raw, tp)
    &&& r.start == page_range(r.page, page_size, total).0
    &&& r.end == page_range(r.page, page_size, total).1
    &&& r.pages@.len() == window_end(r.page, tp) - window_start(r.page) + 1
    &&& forall|i: int|
        0 <= i < r.pages@.len() ==> {
            let p = window_start(r.page) + i;
            &&& (#[trigger] r.pages@[i]).number == p
            &&& r.pages@[i].active == (p == r.page)
            &&& r.pages@[i].href@ == spec_search_url(query, p as i64, page_size)
        }
    &&& match r.prev_href {
        Some(h) => has_query && r.page > 1 && h@ == spec_search_url(query, (r.page - 1) as i64, page_size),
        None => !(has_query && r.page > 1),
    }
    &&& match r.next_href {
        Some(h) => has_query && r.page < tp && h@ == spec_search_url(query, (r.page + 1) as i64, page_size),
        None => !(has_query && r.page < tp),
    }
}

/// The pagination of `total` search results for `query` (already trimmed).
pub fn search_pagination(query: &str, has_query: bool, total: usize, page_raw: &str, page_size: i64) -> (r:
    SearchPagination)
    requires
        page_size == PAGE_SIZE_MOBILE || page_size == PAGE_SIZE_DESKTOP,
        total <= i64::MAX - PAGE_SIZE_DESKTOP,
    ensures
        search_pagination_ok(r, query@, has_query, total as int, page_raw@, page_size),
        1 <= r.page <= r.total_pages,
        window_start(r.page) <= r.page <= window_end(r.page, r.total_pages),
        r.start <= r.end,
        r.end == r.start || r.end <= total,
{
    let total_pages = if has_query {
        page_count(total as i64, page_size)
    } else {
        1
    };
    let page = page_number(page_raw, total_pages);
    proof {
        if has_query {
            assert((total_pages - 1) * page_size < total || total_pages == 1);
        }
        assert((page - 1) * page_size <= (total_pages - 1) * page_size) by (nonlinear_arith)
            requires
                1 <= page <= total_pages,
                page_size > 0,
        ;
        assert(0 <= (page - 1) * page_size) by (nonlinear_arith)
            requires
                1 <= page,
                page_size > 0,
        ;
        assert(total_pages - 1 <= (total_pages - 1) * page_size) by (nonlinear_arith)
            requires
                1 <= total_pages,
                page_size > 0,
        ;
        assert(total_pages <= total + 1);
    }
    let start_i = (page - 1) * page_size;
    let start = start_i as usize;
    let end = if start < total {
        if (page_size as usize) < total - start {
            start + (page_size as usize)
        } else {
            total
        }
    } else {
        start
    };
    let ws = ((page - 1) / PAGE_WINDOW) * PAGE_WINDOW + 1;
    proof {
        let q = (page - 1) / 4;
        assert(ws <= page <= ws + 3) by (nonlinear_arith)
            requires
                ws == q * 4 + 1,
                q == (page - 1) / 4,
                page >= 1,
        ;
    }
    let we = if ws + PAGE_WINDOW - 1 < total_pages {
        ws + PAGE_WINDOW - 1
    } else {
        total_pages
    };
    let mut pages: Vec<PageLink> = Vec::new();
    let mut p: i64 = ws;
    while p <= we
        invariant
            1 <= ws <= page,
            ws <= p <= we + 1,
            we <= total_pages,
            total_pages < i64::MAX,
            pages@.len() == p - ws,
            forall|i: int|
                0 <= i < pages@.len() ==> {
                    &&& (#[trigger] pages@[i]).number == ws + i
                    &&& pages@[i].active == (ws + i == page)
                    &&& pages@[i].href@ == spec_search_url(query@, (ws + i) as i64, page_size)
                },
        decreases we + 1 - p,
    {
        let href = build_search_url(query, p, page_size);
        pages.push(PageLink { number: p, href, active: p == page });
        p = p + 1;
    }
    let prev_href = if has_query && page > 1 {
        Some(build_search_url(query, page - 1, page_size))
    } else {
        None
    };
    let next_href = if has_query && page < total_pages {
        Some(build_search_url(query, page + 1, page_size))
    } else {
        None
    };
    SearchPagination { total_pages, page, start, end, pages, prev_href, next_href }
}

} // verus!
