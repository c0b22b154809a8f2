//! The PLGB review page and its bulk submit endpoint.

use vstd::prelude::*;
use std::collections::HashMap;
use crate::handlers::common::{self, new_file_name};
use crate::models::{FileCard, Flash, PlgbFileDoc, ReviewStats, file_card_ok};
use crate::util::{self, commas, fmt_pct1};
use crate::object_id::{self, oid_parse_str};
use crate::query_filters::{Condition, ConditionView, ParsedFilters, conditions_view};
use crate::text::{self, chars_of, i64_to_string, join_ids, push_str, string_from};

verus! {

/// Query parameters of the review page.
#[derive(Clone, Debug)]
pub struct ReviewQuery {
    pub user_id: String,
    pub file_name: String,
    pub forward_from: String,
    pub id: String,
    pub size_min: String,
    pub size_max: String,
}

/// Body of the bulk review submission, keyed by file id.
#[derive(Clone, Debug)]
pub struct SubmitPayload {
    pub decisions: HashMap<String, String>,
    pub file_names: HashMap<String, String>,
    pub special_hash: HashMap<String, bool>,
}

/// The cards of the sampled documents, numbered from 1.
pub fn review_cards(docs: &[PlgbFileDoc], fqdn: &str) -> (cards: Vec<FileCard>)
    ensures
        cards@.len() == docs@.len(),
        forall|k: int| 0 <= k < cards@.len() ==> file_card_ok(#[trigger] cards@[k], docs@[k], (k + 1) as usize, fqdn@),
{
    let mut cards: Vec<FileCard> = Vec::new();
    let mut i: usize = 0;
    while i < docs.len()
        invariant
            i <= docs@.len(),
            cards@.len() == i,
            forall|k: int|
                0 <= k < cards@.len() ==> file_card_ok(#[trigger] cards@[k], docs@[k], (k + 1) as usize, fqdn@),
        decreases docs@.len() - i,
    {
        cards.push(FileCard::from_doc(&docs[i], i + 1, fqdn));
        i = i + 1;
    }
    cards
}

/// The users an exclusion search leaves out, as shown in messages (`0` when none).
pub open spec fn spec_excluded_users(ids: Seq<i64>) -> Seq<char> {
    if ids.len() == 0 {
        "0"@
    } else {
        text::join_with(text::ids_text(ids), ", "@)
    }
}

/// The users an exclusion search leaves out, as shown in messages.
pub fn excluded_users(ids: &[i64]) -> (r: String)
    ensures
        r@ == spec_excluded_users(ids@),
{
    if ids.len() == 0 {
        string_from("0")
    } else {
        join_ids(ids)
    }
}

/// The conditions counting the pending files of the users an exclusion search
/// leaves out; none unless the search excludes users.
pub fn excluded_count_conditions(is_exclusion: bool, ids: &[i64]) -> (r: Option<Vec<Condition>>)
    ensures
        match r {
            Some(cs) => is_exclusion && ids@.len() > 0 && conditions_view(cs@) == seq![
                ConditionView::UserIdIn(ids@),
                ConditionView::IsPending,
            ],
            None => !(is_exclusion && ids@.len() > 0),
        },
{
    if is_exclusion && ids.len() > 0 {
        let mut cs: Vec<Condition> = Vec::new();
        let copy = text::slice_to_vec(ids, 0, ids.len());
        proof {
            assert(copy@ == ids@);
        }
        cs.push(Condition::UserIdIn(copy));
        cs.push(Condition::IsPending);
        proof {
            assert(conditions_view(cs@) =~= seq![ConditionView::UserIdIn(ids@), ConditionView::IsPending]);
        }
        Some(cs)
    } else {
        None
    }
}

/// The message shown when no pending file was found.
pub open spec fn spec_review_empty_message(
    search_user_id: Seq<char>,
    search_file_name: Seq<char>,
    is_exclusion: bool,
    excluded: Seq<char>,
    has_any_filter: bool,
) -> Seq<char> {
    if search_user_id.len() > 0 && search_file_name.len() > 0 {
        if is_exclusion {
            "No pending files found matching \""@ + search_file_name + "\" (excluding user "@ + excluded
                + ")"@
        } else {
            "No pending files found for user "@ + search_user_id + " matching \""@ + search_file_name
                + "\""@
        }
    } else if search_user_id.len() > 0 {
        if is_exclusion {
            "No pending files found (excluding user ID: "@ + excluded + ")"@
        } else {
            "No pending files found for user ID: "@ + search_user_id
        }
    } else if search_file_name.len() > 0 {
        "No pending files found matching: "@ + search_file_name
    } else if has_any_filter {
        "No pending files found matching your filters"@
    } else {
        "No files pending review!"@
    }
}

/// The message shown when no pending file was found.
pub fn review_empty_message(parsed: &ParsedFilters, has_any_filter: bool) -> (m: String)
    ensures
        m@ == spec_review_empty_message(
            parsed.search_user_id@,
            parsed.search_file_name@,
            parsed.is_exclusion,
            spec_excluded_users(parsed.actual_user_ids@),
            has_any_filter,
        ),
{
    let uid = parsed.search_user_id.as_str();
    let name = parsed.search_file_name.as_str();
    let excluded = excluded_users(parsed.actual_user_ids.as_slice());
    if !uid.is_empty() && !name.is_empty() {
        if parsed.is_exclusion {
            let mut m = string_from("No pending files found matching \"");
            push_str(&mut m, name);
            push_str(&mut m, "\" (excluding user ");
            push_str(&mut m, excluded.as_str());
            push_str(&mut m, ")");
            m
        } else {
            let mut m = string_from("No pending files found for user ");
            push_str(&mut m, uid);
            push_str(&mut m, " matching \"");
            push_str(&mut m, name);
            push_str(&mut m, "\"");
            m
        }
    } else if !uid.is_empty() {
        if parsed.is_exclusion {
            let mut m = string_from("No pending files found (excluding user ID: ");
            push_str(&mut m, excluded.as_str());
            push_str(&mut m, ")");
            m
        } else {
            let mut m = string_from("No pending files found for user ID: ");
            push_str(&mut m, uid);
            m
        }
    } else if !name.is_empty() {
        let mut m = string_from("No pending files found matching: ");
        push_str(&mut m, name);
        m
    } else if has_any_filter {
        string_from("No pending files found matching your filters")
    } else {
        string_from("No files pending review!")
    }
}

/// The review page's heading.
pub open spec fn spec_review_heading(
    has_any_filter: bool,
    search_user_id: Seq<char>,
    search_file_name: Seq<char>,
    is_exclusion: bool,
    excluded: Seq<char>,
    size_filter_active: bool,
    size_min: i64,
    size_max: i64,
) -> Seq<char> {
    if !has_any_filter {
        "Review Files (10 random entries)"@
    } else if search_user_id.len() > 0 && search_file_name.len() > 0 {
        if is_exclusion {
            "Files: \""@ + search_file_name + "\" (Excluding User "@ + excluded + ")"@
        } else {
            "Files: User "@ + search_user_id + " + \""@ + search_file_name + "\""@
        }
    } else if search_user_id.len() > 0 {
        if is_exclusion {
            "Review Files (Excluding User "@ + excluded + ")"@
        } else {
            "Review Files for User "@ + search_user_id
        }
    } else if search_file_name.len() > 0 {
        "Review Files matching \""@ + search_file_name + "\""@
    } else if size_filter_active {
        "Review Files ("@ + text::int_decimal(size_min as int) + "\u{2013}"@ + text::int_decimal(
            size_max as int,
        ) + " MB)"@
    } else {
        "Review Files (filtered)"@
    }
}

/// The heading of the review page.
pub fn review_heading(parsed: &ParsedFilters, has_any_filter: bool) -> (h: String)
    ensures
        h@ == spec_review_heading(
            has_any_filter,
            parsed.search_user_id@,
            parsed.search_file_name@,
            parsed.is_exclusion,
            spec_excluded_users(parsed.actual_user_ids@),
            parsed.size_filter_active,
            parsed.search_size_min,
            parsed.search_size_max,
        ),
{
    let uid = parsed.search_user_id.as_str();
    let name = parsed.search_file_name.as_str();
    let excluded = excluded_users(parsed.actual_user_ids.as_slice());
    if !has_any_filter {
        string_from("Review Files (10 random entries)")
    } else if !uid.is_empty() && !name.is_empty() {
        if parsed.is_exclusion {
            let mut h = string_from("Files: \"");
            push_str(&mut h, name);
            push_str(&mut h, "\" (Excluding User ");
            push_str(&mut h, excluded.as_str());
            push_str(&mut h, ")");
            h
        } else {
            let mut h = string_from("Files: User ");
            push_str(&mut h, uid);
            push_str(&mut h, " + \"");
            push_str(&mut h, name);
            push_str(&mut h, "\"");
            h
        }
    } else if !uid.is_empty() {
        if parsed.is_exclusion {
            let mut h = string_from("Review Files (Excluding User ");
            push_str(&mut h, excluded.as_str());
            push_str(&mut h, ")");
            h
        } else {
            let mut h = string_from("Review Files for User ");
            push_str(&mut h, uid);
            h
        }
    } else if !name.is_empty() {
        let mut h = string_from("Review Files matching \"");
        push_str(&mut h, name);
        push_str(&mut h, "\"");
        h
    } else if parsed.size_filter_active {
        let mut h = string_from("Review Files (");
        let a = i64_to_string(parsed.search_size_min);
        push_str(&mut h, a.as_str());
        push_str(&mut h, "\u{2013}");
        let b = i64_to_string(parsed.search_size_max);
        push_str(&mut h, b.as_str());
        push_str(&mut h, " MB)");
        h
    } else {
        string_from("Review Files (filtered)")
    }
}

// ---------------------------------------------------------------------------
// Submitting decisions
// ---------------------------------------------------------------------------

/// The update one decision makes to a file document.
pub struct PlgbUpdate {
    pub oid: [u8; 12],
    pub is_public: bool,
    /// The new (trimmed) file name, when one was submitted.
    pub file_name: Option<String>,
    /// Whether the file is marked as an endless-ads loop.
    pub special_type: bool,
}

/// The update a decision on `file_id` makes: none when the id is not an object id;
/// else the file is public exactly when the decision is `accept`, renamed when a
/// non-blank name was submitted, and marked special when that was ticked.
pub fn plgb_update(file_id: &str, decision: &str, name: Option<&str>, special: Option<bool>) -> (r: Option<
    PlgbUpdate,
>)
    ensures
        r is Some <==> object_id::is_oid_text(file_id@),
        r matches Some(u) ==> {
            &&& object_id::hex_decodes_to(file_id@, u.oid@)
            &&& u.is_public == (decision@ == "accept"@)
            &&& match u.file_name {
                Some(s) => common::spec_new_file_name(
                    match name {
                        Some(n) => Some(n@),
                        None => None,
                    },
                ) == Some(s@),
                None => common::spec_new_file_name(
                    match name {
                        Some(n) => Some(n@),
                        None => None,
                    },
                ) is None,
            }
            &&& u.special_type == (special == Some(true))
        },
{
    let oid = match oid_parse_str(file_id) {
        Ok(b) => b,
        Err(_) => {
            return None;
        },
    };
    let d = chars_of(decision);
    let acc = chars_of("accept");
    let is_public = text::chars_eq(d.as_slice(), acc.as_slice());
    let file_name = new_file_name(name);
    let special_type = match special {
        Some(b) => b,
        None => false,
    };
    Some(PlgbUpdate { oid, is_public, file_name, special_type })
}

/// The reply message of a submission.
pub open spec fn spec_review_submit_message(accepted: i64, rejected: i64) -> Seq<char> {
    "Updated "@ + text::int_decimal(accepted + rejected) + " files successfully!"@
}

/// The reply message of a submission.
pub fn review_submit_message(accepted: i64, rejected: i64) -> (m: String)
    requires
        0 <= accepted,
        0 <= rejected,
        accepted + rejected <= i64::MAX,
    ensures
        m@ == spec_review_submit_message(accepted, rejected),
{
    let mut m = string_from("Updated ");
    let n = i64_to_string(accepted + rejected);
    push_str(&mut m, n.as_str());
    push_str(&mut m, " files successfully!");
    m
}

/// The flashes' `(category, message)` pairs.
pub open spec fn flashes_view(fs: Seq<Flash>) -> Seq<(Seq<char>, Seq<char>)> {
    Seq::new(fs.len(), |i: int| (fs[i].category@, fs[i].message@))
}

/// An error flash.
pub fn error_flash(message: &str) -> (f: Flash)
    ensures
        f.category@ == "error"@,
        f.message@ == message@,
{
    Flash { category: string_from("error"), message: string_from(message) }
}

/// The errors the PLGB search form reports: an unreadable user id, then an
/// unreadable object id.
pub open spec fn spec_plgb_filter_errors(invalid_user_id: bool, invalid_file_id: bool) -> Seq<(Seq<char>, Seq<char>)> {
    (if invalid_user_id {
        seq![("error"@, "Invalid user ID. Please enter a valid number."@)]
    } else {
        Seq::empty()
    }) + (if invalid_file_id {
        seq![("error"@, "Invalid File ID format. Please enter a valid 24-character hex ID."@)]
    } else {
        Seq::empty()
    })
}

/// Appends the errors of a parsed PLGB search to `flashes`.
pub fn push_plgb_filter_errors(flashes: &mut Vec<Flash>, parsed: &ParsedFilters)
    ensures
        flashes_view(final(flashes)@) == flashes_view(old(flashes)@) + spec_plgb_filter_errors(
            parsed.invalid_user_id,
            parsed.invalid_file_id,
        ),
{
    let ghost before = flashes@;
    if parsed.invalid_user_id {
        flashes.push(error_flash("Invalid user ID. Please enter a valid number."));
    }
    let ghost mid = flashes@;
    if parsed.invalid_file_id {
        flashes.push(error_flash("Invalid File ID format. Please enter a valid 24-character hex ID."));
    }
    proof {
        assert(flashes_view(flashes@) =~= flashes_view(before) + spec_plgb_filter_errors(
            parsed.invalid_user_id,
            parsed.invalid_file_id,
        ));
    }
}


/// The users of a search as its statistics show them: every id, comma separated.
pub open spec fn users_text(ids: Seq<i64>) -> Seq<char> {
    text::join_with(text::ids_text(ids), ", "@)
}

/// The review page's statistics for a search, from its counts: the file counts
/// with thousands separators, the rates in percent with one decimal, and the
/// sessions of 10 files left.
pub fn review_stats(
    parsed: &ParsedFilters,
    total: i64,
    reviewed: i64,
    pending: i64,
    accepted: i64,
    rejected: i64,
    excluded_count: Option<i64>,
) -> (s: ReviewStats)
    ensures
        s.search_user_id@ == users_text(parsed.actual_user_ids@),
        s.search_file_name@ == parsed.search_file_name@,
        s.size_filter_active == parsed.size_filter_active,
        s.search_size_min == parsed.search_size_min,
        s.search_size_max == parsed.search_size_max,
        s.is_exclusion == parsed.is_exclusion,
        s.total_fmt@ == util::spec_commas(total as int),
        s.reviewed_fmt@ == util::spec_commas(reviewed as int),
        s.pending_fmt@ == util::spec_commas(pending as int),
        s.accepted_fmt@ == util::spec_commas(accepted as int),
        s.rejected_fmt@ == util::spec_commas(rejected as int),
        s.excluded_count_fmt@ == match excluded_count {
            Some(c) => util::spec_commas(c as int),
            None => Seq::empty(),
        },
        s.has_excluded_count == excluded_count is Some,
        s.progress_pct_fmt@ == util::spec_fmt_pct1(reviewed, total),
        s.acceptance_rate_fmt@ == util::spec_fmt_pct1(accepted, reviewed),
        s.rejection_rate_fmt@ == util::spec_fmt_pct1(rejected, reviewed),
        s.sessions_left_fmt@ == common::spec_sessions_left(pending, 10),
{
    ReviewStats {
        search_user_id: join_ids(parsed.actual_user_ids.as_slice()),
        search_file_name: parsed.search_file_name.clone(),
        size_filter_active: parsed.size_filter_active,
        search_size_min: parsed.search_size_min,
        search_size_max: parsed.search_size_max,
        is_exclusion: parsed.is_exclusion,
        total_fmt: commas(total),
        reviewed_fmt: commas(reviewed),
        pending_fmt: commas(pending),
        accepted_fmt: commas(accepted),
        rejected_fmt: commas(rejected),
        excluded_count_fmt: match excluded_count {
            Some(c) => commas(c),
            None => String::new(),
        },
        has_excluded_count: excluded_count.is_some(),
        progress_pct_fmt: fmt_pct1(reviewed, total),
        acceptance_rate_fmt: fmt_pct1(accepted, reviewed),
        rejection_rate_fmt: fmt_pct1(rejected, reviewed),
        sessions_left_fmt: common::sessions_left(pending, 10),
    }
}

} // verus!
