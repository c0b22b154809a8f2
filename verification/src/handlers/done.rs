//! The PLGB "done" (already reviewed) page: its query, pagination links and heading.

use vstd::prelude::*;
use crate::handlers::common::extend_conditions;
use crate::models::DoneStats;
use crate::query_filters::{Condition, ConditionView, ParsedFilters, conditions_view};
use crate::text::{self, i64_to_string, push_str, string_from};
use crate::util::{self, query_string};

verus! {

/// Files per page of the done page.
pub const PAGE_SIZE: i64 = 10;

/// The done page shows at most this many pages.
pub const MAX_PAGES: i64 = 5;

/// Query parameters of the done page.
#[derive(Clone, Debug)]
pub struct DoneQuery {
    pub user_id: String,
    pub file_name: String,
    pub forward_from: String,
    pub reviewed_by: String,
    pub status: String,
    pub id: String,
    pub size_min: String,
    pub size_max: String,
    pub page: String,
}

/// One numbered pagination link.
#[derive(Clone, Debug)]
pub struct PageLink {
    pub number: i64,
    pub href: String,
    pub active: bool,
}

/// `(key, value)` when the value is non-empty, else nothing.
pub open spec fn opt_param(key: Seq<char>, value: Seq<char>) -> Seq<(Seq<char>, Seq<char>)> {
    if value.len() > 0 {
        seq![(key, value)]
    } else {
        Seq::empty()
    }
}

/// The query parameters of a done-page link, in order.
pub open spec fn done_params(
    page: i64,
    search_user_id: Seq<char>,
    search_file_name: Seq<char>,
    search_forward_from: Seq<char>,
    search_reviewed_by: Seq<char>,
    search_status: Seq<char>,
    size_min: i64,
    size_max: i64,
    search_id: Seq<char>,
) -> Seq<(Seq<char>, Seq<char>)> {
    seq![("page"@, text::int_decimal(page as int))] + opt_param("user_id"@, search_user_id)
        + opt_param("file_name"@, search_file_name) + opt_param(
        "forward_from"@,
        search_forward_from,
    ) + opt_param("reviewed_by"@, search_reviewed_by) + opt_param("status"@, search_status)
        + seq![
        ("size_min"@, text::int_decimal(size_min as int)),
        ("size_max"@, text::int_decimal(size_max as int)),
    ] + opt_param("id"@, search_id)
}

/// Appends `(key, value)` when `value` is non-empty.
pub fn push_opt_param(params: &mut Vec<(String, String)>, key: &str, value: &str)
    ensures
        util::params_view(final(params)@) == util::params_view(old(params)@) + opt_param(key@, value@),
{
    if !value.is_empty() {
        let ghost before = params@;
        params.push((string_from(key), string_from(value)));
        proof {
            assert(util::params_view(params@) =~= util::params_view(before) + opt_param(key@, value@));
        }
    } else {
        proof {
            assert(util::params_view(params@) =~= util::params_view(params@) + opt_param(key@, value@));
        }
    }
}

/// Appends `(key, value)`.
pub fn push_param(params: &mut Vec<(String, String)>, key: &str, value: String)
    ensures
        util::params_view(final(params)@) == util::params_view(old(params)@).push((key@, value@)),
{
    let ghost before = params@;
    params.push((string_from(key), value));
    proof {
        assert(util::params_view(params@) =~= util::params_view(before).push((key@, value@)));
    }
}

/// Link to one page of the done page with the current search.
pub fn build_done_url(
    page: i64,
    search_user_id: &str,
    search_file_name: &str,
    search_forward_from: &str,
    search_reviewed_by: &str,
    search_status: &str,
    size_min: i64,
    size_max: i64,
    search_id: &str,
) -> (url: String)
    ensures
        url@ == crate::BASE_PATH@ + "/done?"@ + util::join_params(
            done_params(
                page,
                search_user_id@,
                search_file_name@,
                search_forward_from@,
                search_reviewed_by@,
                search_status@,
                size_min,
                size_max,
                search_id@,
            ),
        ),
{
    let mut params: Vec<(String, String)> = Vec::new();
    push_param(&mut params, "page", i64_to_string(page));
    push_opt_param(&mut params, "user_id", search_user_id);
    push_opt_param(&mut params, "file_name", search_file_name);
    push_opt_param(&mut params, "forward_from", search_forward_from);
    push_opt_param(&mut params, "reviewed_by", search_reviewed_by);
    push_opt_param(&mut params, "status", search_status);
    push_param(&mut params, "size_min", i64_to_string(size_min));
    push_param(&mut params, "size_max", i64_to_string(size_max));
    push_opt_param(&mut params, "id", search_id);
    proof {
        assert(util::params_view(params@) =~= done_params(
            page,
            search_user_id@,
            search_file_name@,
            search_forward_from@,
            search_reviewed_by@,
            search_status@,
            size_min,
            size_max,
            search_id@,
        ));
    }
    let query = query_string(params.as_slice());
    let mut url = string_from(crate::BASE_PATH);
    push_str(&mut url, "/done?");
    push_str(&mut url, query.as_str());
    url
}

/// The done page's conditions: reviewed files, the form's conditions, the
/// case-insensitive `reviewed_by` pattern when given, and the status when it is
/// `accepted` or `rejected`.
pub open spec fn spec_done_conditions(
    form: Seq<ConditionView>,
    search_reviewed_by: Seq<char>,
    search_status: Seq<char>,
) -> Seq<ConditionView> {
    seq![ConditionView::IsReviewed] + form + (if search_reviewed_by.len() > 0 {
        seq![ConditionView::ReviewedByMatches(search_reviewed_by)]
    } else {
        Seq::empty()
    }) + (if search_status == "accepted"@ {
        seq![ConditionView::IsPublic(true)]
    } else if search_status == "rejected"@ {
        seq![ConditionView::IsPublic(false)]
    } else {
        Seq::empty()
    })
}

/// Law: the done page lists reviewed files only, keeps every condition of the
/// form in order, and filters on the outcome exactly as the status field asks:
/// `accepted` adds the condition that the file is public, `rejected` that it is
/// not, any other status adds no such condition; a non-blank moderator name adds
/// the one condition on `reviewed_by` that the form does not already hold.
pub proof fn lemma_done_conditions(form: Seq<ConditionView>, search_reviewed_by: Seq<char>, search_status: Seq<char>)
    ensures
        ({
            let cs = spec_done_conditions(form, search_reviewed_by, search_status);
            &&& cs.len() >= 1 + form.len()
            &&& cs[0] == ConditionView::IsReviewed
            &&& cs.subrange(1, 1 + form.len() as int) == form
            &&& forall|b: bool|
                #![trigger cs.contains(ConditionView::IsPublic(b))]
                cs.contains(ConditionView::IsPublic(b)) <==> (form.contains(ConditionView::IsPublic(b)) || (
                search_status == "accepted"@ && b) || (search_status == "rejected"@ && !b))
            &&& forall|p: Seq<char>|
                #![trigger cs.contains(ConditionView::ReviewedByMatches(p))]
                cs.contains(ConditionView::ReviewedByMatches(p)) <==> (form.contains(
                    ConditionView::ReviewedByMatches(p),
                ) || (search_reviewed_by.len() > 0 && p == search_reviewed_by))
        }),
{
    let cs = spec_done_conditions(form, search_reviewed_by, search_status);
    let rb = if search_reviewed_by.len() > 0 {
        seq![ConditionView::ReviewedByMatches(search_reviewed_by)]
    } else {
        Seq::<ConditionView>::empty()
    };
    let st = if search_status == "accepted"@ {
        seq![ConditionView::IsPublic(true)]
    } else if search_status == "rejected"@ {
        seq![ConditionView::IsPublic(false)]
    } else {
        Seq::<ConditionView>::empty()
    };
    let head = seq![ConditionView::IsReviewed] + form;
    reveal_strlit("accepted");
    reveal_strlit("rejected");
    assert("accepted"@[0] != "rejected"@[0]);
    assert(cs == head + rb + st);
    assert(cs.subrange(1, 1 + form.len() as int) =~= form);
    assert forall|b: bool|
        #![trigger cs.contains(ConditionView::IsPublic(b))]
        cs.contains(ConditionView::IsPublic(b)) <==> (form.contains(ConditionView::IsPublic(b)) || (search_status
            == "accepted"@ && b) || (search_status == "rejected"@ && !b)) by {
        let c = ConditionView::IsPublic(b);
        if cs.contains(c) {
            let k = choose|k: int| 0 <= k < cs.len() && cs[k] == c;
            if 1 <= k < 1 + form.len() {
                assert(form[k - 1] == c);
            } else if k >= 1 + form.len() + rb.len() {
                assert(st[k - 1 - form.len() - rb.len()] == c);
            } else if k >= 1 + form.len() {
                assert(rb[k - 1 - form.len()] == c);
            }
        }
        if form.contains(c) {
            let k = choose|k: int| 0 <= k < form.len() && form[k] == c;
            assert(cs[k + 1] == c);
        }
        if (search_status == "accepted"@ && b) || (search_status == "rejected"@ && !b) {
            assert(st == seq![c]);
            assert(cs[1 + form.len() as int + rb.len() as int] == c);
        }
    }
    assert forall|p: Seq<char>|
        #![trigger cs.contains(ConditionView::ReviewedByMatches(p))]
        cs.contains(ConditionView::ReviewedByMatches(p)) <==> (form.contains(ConditionView::ReviewedByMatches(p))
            || (search_reviewed_by.len() > 0 && p == search_reviewed_by)) by {
        let c = ConditionView::ReviewedByMatches(p);
        if cs.contains(c) {
            let k = choose|k: int| 0 <= k < cs.len() && cs[k] == c;
            if 1 <= k < 1 + form.len() {
                assert(form[k - 1] == c);
            } else if k >= 1 + form.len() + rb.len() {
                assert(st[k - 1 - form.len() - rb.len()] == c);
            } else if k >= 1 + form.len() {
                assert(rb[k - 1 - form.len()] == c);
            }
        }
        if form.contains(c) {
            let k = choose|k: int| 0 <= k < form.len() && form[k] == c;
            assert(cs[k + 1] == c);
        }
        if search_reviewed_by.len() > 0 && p == search_reviewed_by {
            assert(cs[1 + form.len() as int] == c);
        }
    }
}

/// The conditions of the done page's query.
pub fn done_conditions(form: &[Condition], search_reviewed_by: &str, search_status: &str) -> (r: Vec<Condition>)
    ensures
        conditions_view(r@) == spec_done_conditions(conditions_view(form@), search_reviewed_by@, search_status@),
{
    let mut r: Vec<Condition> = Vec::new();
    r.push(Condition::IsReviewed);
    extend_conditions(&mut r, form);
    let ghost mid = r@;
    if !search_reviewed_by.is_empty() {
        r.push(Condition::ReviewedByMatches(string_from(search_reviewed_by)));
    }
    let ghost mid2 = r@;
    let st = text::chars_of(search_status);
    let acc = text::chars_of("accepted");
    let rej = text::chars_of("rejected");
    if text::chars_eq(st.as_slice(), acc.as_slice()) {
        r.push(Condition::IsPublic(true));
    } else if text::chars_eq(st.as_slice(), rej.as_slice()) {
        r.push(Condition::IsPublic(false));
    }
    proof {
        assert(conditions_view(seq![Condition::IsReviewed]) =~= seq![ConditionView::IsReviewed]);
        assert(conditions_view(mid) =~= seq![ConditionView::IsReviewed] + conditions_view(form@));
        assert(conditions_view(r@) =~= spec_done_conditions(
            conditions_view(form@),
            search_reviewed_by@,
            search_status@,
        ));
    }
    r
}

/// The done page's heading: with a search, the user and quoted file name searched for.
pub open spec fn spec_done_heading(has_extra_filter: bool, search_user_id: Seq<char>, search_file_name: Seq<char>) -> Seq<char> {
    if has_extra_filter {
        "\u{2705} Reviewed Files"@ + (if search_user_id.len() > 0 {
            " \u{2013} User "@ + search_user_id
        } else {
            Seq::empty()
        }) + (if search_file_name.len() > 0 {
            " + \""@ + search_file_name + "\""@
        } else {
            Seq::empty()
        })
    } else {
        "\u{2705} Reviewed Files (10 random)"@
    }
}

/// The heading of the done page.
pub fn done_heading(has_extra_filter: bool, search_user_id: &str, search_file_name: &str) -> (h: String)
    ensures
        h@ == spec_done_heading(has_extra_filter, search_user_id@, search_file_name@),
{
    if has_extra_filter {
        let mut h = string_from("\u{2705} Reviewed Files");
        if !search_user_id.is_empty() {
            push_str(&mut h, " \u{2013} User ");
            push_str(&mut h, search_user_id);
        }
        if !search_file_name.is_empty() {
            push_str(&mut h, " + \"");
            push_str(&mut h, search_file_name);
            push_str(&mut h, "\"");
        }
        h
    } else {
        string_from("\u{2705} Reviewed Files (10 random)")
    }
}

/// The search part of a done-page link.
pub struct DoneSearch<'a> {
    pub search_user_id: &'a str,
    pub search_file_name: &'a str,
    pub search_forward_from: &'a str,
    pub search_reviewed_by: &'a str,
    pub search_status: &'a str,
    pub size_min: i64,
    pub size_max: i64,
    pub search_id: &'a str,
}

/// Links to pages `1..=total_pages`, the current one marked active.
pub fn done_page_links(total_pages: i64, page: i64, s: &DoneSearch) -> (links: Vec<PageLink>)
    requires
        0 <= total_pages <= 1000,
    ensures
        links@.len() == total_pages,
        forall|i: int|
            0 <= i < links@.len() ==> {
                &&& (#[trigger] links@[i]).number == i + 1
                &&& links@[i].active == (i + 1 == page)
                &&& links@[i].href@ == crate::BASE_PATH@ + "/done?"@ + util::join_params(
                    done_params(
                        (i + 1) as i64,
                        s.search_user_id@,
                        s.search_file_name@,
                        s.search_forward_from@,
                        s.search_reviewed_by@,
                        s.search_status@,
                        s.size_min,
                        s.size_max,
                        s.search_id@,
                    ),
                )
            },
{
    let mut links: Vec<PageLink> = Vec::new();
    let mut p: i64 = 1;
    while p <= total_pages
        invariant
            1 <= p <= total_pages + 1,
            total_pages <= 1000,
            links@.len() == p - 1,
            forall|i: int|
                0 <= i < links@.len() ==> {
                    &&& (#[trigger] links@[i]).number == i + 1
                    &&& links@[i].active == (i + 1 == page)
                    &&& links@[i].href@ == crate::BASE_PATH@ + "/done?"@ + util::join_params(
                        done_params(
                            (i + 1) as i64,
                            s.search_user_id@,
                            s.search_file_name@,
                            s.search_forward_from@,
                            s.search_reviewed_by@,
                            s.search_status@,
                            s.size_min,
                            s.size_max,
                            s.search_id@,
                        ),
                    )
                },
        decreases total_pages + 1 - p,
    {
        let href = build_done_url(
            p,
            s.search_user_id,
            s.search_file_name,
            s.search_forward_from,
            s.search_reviewed_by,
            s.search_status,
            s.size_min,
            s.size_max,
            s.search_id,
        );
        links.push(PageLink { number: p, href, active: p == page });
        p = p + 1;
    }
    links
}

/// Whether the done page has a search beyond its defaults.
pub open spec fn spec_done_has_filter(
    search_reviewed_by: Seq<char>,
    search_status: Seq<char>,
    search_user_id: Seq<char>,
    search_file_name: Seq<char>,
    search_forward_from: Seq<char>,
    size_filter_active: bool,
    search_id: Seq<char>,
) -> bool {
    search_reviewed_by.len() > 0 || search_status.len() > 0 || search_user_id.len() > 0
        || search_file_name.len() > 0 || search_forward_from.len() > 0 || size_filter_active
        || search_id.len() > 0
}

/// Whether the done page has a search beyond its defaults: then it shows
/// statistics and a heading naming the search.
pub fn done_has_filter(search_reviewed_by: &str, search_status: &str, parsed: &ParsedFilters) -> (r: bool)
    ensures
        r == spec_done_has_filter(
            search_reviewed_by@,
            search_status@,
            parsed.search_user_id@,
            parsed.search_file_name@,
            parsed.search_forward_from@,
            parsed.size_filter_active,
            parsed.search_id@,
        ),
{
    !search_reviewed_by.is_empty() || !search_status.is_empty()
        || !parsed.search_user_id.as_str().is_empty() || !parsed.search_file_name.as_str().is_empty()
        || !parsed.search_forward_from.as_str().is_empty() || parsed.size_filter_active
        || !parsed.search_id.as_str().is_empty()
}


/// The done page's statistics for a search: the counts with thousands separators
/// and the accepted and rejected shares in percent with one decimal.
pub fn done_stats(parsed: &ParsedFilters, search_reviewed_by: &str, total: i64, accepted: i64, rejected: i64) -> (s:
    DoneStats)
    ensures
        s.search_user_id@ == crate::handlers::review::users_text(parsed.actual_user_ids@),
        s.search_file_name@ == parsed.search_file_name@,
        s.search_reviewed_by@ == search_reviewed_by@,
        s.size_filter_active == parsed.size_filter_active,
        s.search_size_min == parsed.search_size_min,
        s.search_size_max == parsed.search_size_max,
        s.is_exclusion == parsed.is_exclusion,
        s.total_fmt@ == util::spec_commas(total as int),
        s.accepted_fmt@ == util::spec_commas(accepted as int),
        s.rejected_fmt@ == util::spec_commas(rejected as int),
        s.acceptance_rate_fmt@ == util::spec_fmt_pct1(accepted, total),
        s.rejection_rate_fmt@ == util::spec_fmt_pct1(rejected, total),
{
    DoneStats {
        search_user_id: text::join_ids(parsed.actual_user_ids.as_slice()),
        search_file_name: parsed.search_file_name.clone(),
        search_reviewed_by: string_from(search_reviewed_by),
        size_filter_active: parsed.size_filter_active,
        search_size_min: parsed.search_size_min,
        search_size_max: parsed.search_size_max,
        is_exclusion: parsed.is_exclusion,
        total_fmt: util::commas(total),
        accepted_fmt: util::commas(accepted),
        rejected_fmt: util::commas(rejected),
        acceptance_rate_fmt: util::fmt_pct1(accepted, total),
        rejection_rate_fmt: util::fmt_pct1(rejected, total),
    }
}

} // verus!
