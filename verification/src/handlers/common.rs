//! Pieces shared by the pages: page numbers, page counts and condition lists.

use vstd::prelude::*;
use crate::query_filters::{Condition, ConditionView, conditions_view};
use crate::text::{self, parse_trimmed_i64};
use crate::util;

verus! {

/// `raw.trim().parse().unwrap_or(1)`, clamped to `1..=max_page`.
pub open spec fn spec_page_number(raw: Seq<char>, max_page: i64) -> i64 {
    let p = match text::parse_i64(text::trim(raw)) {
        Some(v) => v,
        None => 1,
    };
    if p < 1 {
        1
    } else if p > max_page {
        max_page
    } else {
        p
    }
}

/// The page a `page` query value asks for, within `1..=max_page`.
pub fn page_number(raw: &str, max_page: i64) -> (r: i64)
    requires
        max_page >= 1,
    ensures
        r == spec_page_number(raw@, max_page),
        1 <= r <= max_page,
{
    let p = match parse_trimmed_i64(raw) {
        Some(v) => v,
        None => 1,
    };
    if p < 1 {
        1
    } else if p > max_page {
        max_page
    } else {
        p
    }
}

/// Number of pages of `page_size` needed for `total` items (at least one).
pub open spec fn spec_page_count(total: int, page_size: int) -> int {
    let n = (total + page_size - 1) / page_size;
    if n < 1 {
        1
    } else {
        n
    }
}

/// `((total + page_size - 1) / page_size).max(1)`.
pub fn page_count(total: i64, page_size: i64) -> (r: i64)
    requires
        total >= 0,
        page_size > 0,
        total + page_size <= i64::MAX,
    ensures
        r == spec_page_count(total as int, page_size as int),
        r >= 1,
        (r - 1) * page_size < total || r == 1,
        total <= r * page_size,
{
    let n = (total + page_size - 1) / page_size;
    proof {
        assert((n - 1) * page_size < total || n <= 1) by (nonlinear_arith)
            requires
                n as int == (total as int + page_size as int - 1) / (page_size as int),
                page_size > 0,
                total >= 0,
        ;
        assert(total <= n * page_size) by (nonlinear_arith)
            requires
                n as int == (total as int + page_size as int - 1) / (page_size as int),
                page_size > 0,
                total >= 0,
        ;
    }
    let r = if n < 1 {
        1
    } else {
        n
    };
    proof {
        assert(total <= r * page_size) by (nonlinear_arith)
            requires
                total <= n * page_size,
                r >= n,
                page_size > 0,
        ;
    }
    r
}

/// A copy of a condition.
pub fn clone_condition(c: &Condition) -> (r: Condition)
    ensures
        r@ == c@,
{
    match c {
        Condition::UserIdEq(v) => Condition::UserIdEq(*v),
        Condition::UserIdNe(v) => Condition::UserIdNe(*v),
        Condition::UserIdIn(vs) => Condition::UserIdIn(vs.clone()),
        Condition::UserIdNotIn(vs) => Condition::UserIdNotIn(vs.clone()),
        Condition::FileNameMatches(p) => Condition::FileNameMatches(p.clone()),
        Condition::FileSizeBetween(a, b) => Condition::FileSizeBetween(*a, *b),
        Condition::ForwardFromMatches(p) => Condition::ForwardFromMatches(p.clone()),
        Condition::ForwardNameMatches(p) => Condition::ForwardNameMatches(p.clone()),
        Condition::IdEq(b) => Condition::IdEq(*b),
        Condition::TimeBetween(a, b) => Condition::TimeBetween(*a, *b),
        Condition::BotIdEq(v) => Condition::BotIdEq(*v),
        Condition::BotIdNe(v) => Condition::BotIdNe(*v),
        Condition::FileIdEq(v) => Condition::FileIdEq(*v),
        Condition::AddedAtBetween(a, b) => Condition::AddedAtBetween(*a, *b),
        Condition::IsReviewed => Condition::IsReviewed,
        Condition::IsPending => Condition::IsPending,
        Condition::IsPublic(b) => Condition::IsPublic(*b),
        Condition::ReviewedByMatches(p) => Condition::ReviewedByMatches(p.clone()),
    }
}

/// Appends copies of `cs` to `out`.
pub fn extend_conditions(out: &mut Vec<Condition>, cs: &[Condition])
    ensures
        conditions_view(final(out)@) == conditions_view(old(out)@) + conditions_view(cs@),
{
    let ghost o = out@;
    let mut i: usize = 0;
    while i < cs.len()
        invariant
            i <= cs@.len(),
            conditions_view(out@) == conditions_view(o) + conditions_view(cs@).take(i as int),
        decreases cs@.len() - i,
    {
        let ghost before = out@;
        out.push(clone_condition(&cs[i]));
        i = i + 1;
        proof {
            assert(conditions_view(out@) =~= conditions_view(before).push(cs@[i - 1]@));
            assert(conditions_view(cs@).take(i as int) =~= conditions_view(cs@).take(i - 1).push(
                cs@[i - 1]@,
            ));
        }
    }
    proof {
        assert(conditions_view(cs@).take(cs@.len() as int) =~= conditions_view(cs@));
    }
}

/// `and_with(conditions, extra)`: the conditions plus one more, all ANDed together.
pub fn and_with(conditions: &[Condition], extra: Condition) -> (r: Vec<Condition>)
    ensures
        conditions_view(r@) == conditions_view(conditions@).push(extra@),
{
    let mut r: Vec<Condition> = Vec::new();
    extend_conditions(&mut r, conditions);
    let ghost before = r@;
    r.push(extra);
    proof {
        assert(conditions_view(before) =~= Seq::<ConditionView>::empty() + conditions_view(conditions@));
        assert(conditions_view(r@) =~= conditions_view(before).push(extra@));
    }
    r
}

/// Review sessions left for `pending` files at `page_size` files per session:
/// `(pending as f64 / page_size as f64).round()` followed by `+`; `"0"` when
/// nothing is pending.
pub open spec fn spec_sessions_left(pending: i64, page_size: i64) -> Seq<char> {
    if pending > 0 {
        let r = util::f64_round_quotient(pending as nat, page_size as nat);
        text::int_decimal(
            if r > i64::MAX {
                i64::MAX as int
            } else {
                r as int
            },
        ) + "+"@
    } else {
        "0"@
    }
}

/// The "sessions left" figure of the review statistics.
pub fn sessions_left(pending: i64, page_size: i64) -> (r: String)
    requires
        page_size >= 1,
    ensures
        r@ == spec_sessions_left(pending, page_size),
{
    if pending > 0 {
        let n = util::round_quotient(pending, page_size);
        let mut r = text::i64_to_string(n);
        text::push_str(&mut r, "+");
        r
    } else {
        text::string_from("0")
    }
}

/// The file name a submission renames a file to: the submitted name trimmed, when
/// one was given and it is not blank.
pub open spec fn spec_new_file_name(name: Option<Seq<char>>) -> Option<Seq<char>> {
    match name {
        Some(n) => if text::trim(n).len() > 0 {
            Some(text::trim(n))
        } else {
            None
        },
        None => None,
    }
}

/// The trimmed new file name a submission carries, if any.
pub fn new_file_name(name: Option<&str>) -> (r: Option<String>)
    ensures
        match r {
            Some(s) => spec_new_file_name(
                match name {
                    Some(n) => Some(n@),
                    None => None,
                },
            ) == Some(s@),
            None => spec_new_file_name(
                match name {
                    Some(n) => Some(n@),
                    None => None,
                },
            ) is None,
        },
{
    match name {
        Some(n) => {
            let t = text::trimmed_string(n);
            if t.as_str().is_empty() {
                None
            } else {
                Some(t)
            }
        },
        None => None,
    }
}

} // verus!
