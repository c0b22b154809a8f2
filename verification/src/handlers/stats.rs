//! The PLGB statistics page: how two moderators compare.

use vstd::prelude::*;
use crate::models::ReviewerStats;
use crate::text::string_from;
use crate::util;

verus! {

/// The style class of a comparison between two moderators' figures.
pub open spec fn spec_diff_class(a: i64, b: i64) -> Seq<char> {
    if a > b {
        "positive"@
    } else if a < b {
        "negative"@
    } else {
        Seq::empty()
    }
}

/// `"positive"` when `a` leads, `"negative"` when it trails, else empty.
pub fn diff_class(a: i64, b: i64) -> (r: String)
    ensures
        r@ == spec_diff_class(a, b),
{
    if a > b {
        string_from("positive")
    } else if a < b {
        string_from("negative")
    } else {
        String::new()
    }
}

/// The scale of the status bars: the largest of the three counts, at least 1.
pub fn bar_scale(public: i64, private: i64, pending: i64) -> (r: i64)
    ensures
        r >= 1,
        r >= public,
        r >= private,
        r >= pending,
        r == 1 || r == public || r == private || r == pending,
{
    let mut m = public;
    if private > m {
        m = private;
    }
    if pending > m {
        m = pending;
    }
    if 1 > m {
        m = 1;
    }
    m
}


/// One account's block of the statistics page: its counts with thousands
/// separators, its acceptance rate, and its share of all reviewed files, in
/// percent with one decimal.
pub fn reviewer_stats(total_reviewed: i64, accepted: i64, rejected: i64, total_reviewed_all: i64) -> (s: ReviewerStats)
    ensures
        s.total_reviewed_fmt@ == util::spec_commas(total_reviewed as int),
        s.accepted_fmt@ == util::spec_commas(accepted as int),
        s.rejected_fmt@ == util::spec_commas(rejected as int),
        s.acceptance_rate_fmt@ == util::spec_fmt_pct1(accepted, total_reviewed),
        s.contribution_fmt@ == util::spec_fmt_pct1(total_reviewed, total_reviewed_all),
{
    ReviewerStats {
        total_reviewed_fmt: util::commas(total_reviewed),
        accepted_fmt: util::commas(accepted),
        rejected_fmt: util::commas(rejected),
        acceptance_rate_fmt: util::fmt_pct1(accepted, total_reviewed),
        contribution_fmt: util::fmt_pct1(total_reviewed, total_reviewed_all),
    }
}


/// The accepted-to-rejected ratio as the page shows it: `"{:.2}:1"` of the float
/// quotient when both are positive, `"∞:1"` when only accepted files exist, else
/// `"0:1"`.
pub open spec fn spec_ratio_str(public: i64, private: i64) -> Seq<char> {
    if public > 0 && private > 0 {
        util::fixed2(util::quotient_hundredths(public as nat, private as nat)) + ":1"@
    } else if public > 0 {
        "\u{221e}:1"@
    } else {
        "0:1"@
    }
}

/// The accepted-to-rejected ratio text.
pub fn ratio_str(public: i64, private: i64) -> (r: String)
    ensures
        r@ == spec_ratio_str(public, private),
{
    if public > 0 && private > 0 {
        let mut r = util::quotient_fixed2(public, private);
        crate::text::push_str(&mut r, ":1");
        r
    } else if public > 0 {
        string_from("\u{221e}:1")
    } else {
        string_from("0:1")
    }
}

} // verus!
