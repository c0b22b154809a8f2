//! Parsing of the TGFS search form. Conditions apply to index (`user_files`) fields
//! only; review status is filtered separately against the joined blob documents.

use vstd::prelude::*;
use crate::query_filters::{
    self, parse_date_filter, parse_size_range, parse_user_id_filter, push_word_conditions,
    Condition, ConditionView, MAX_SIZE_MB,
};
use crate::text::{self, chars_of, parse_trimmed_i64, trimmed_string};

verus! {

/// The raw TGFS search-form fields, as typed.
pub struct TgfsRawFilterInput<'a> {
    pub user_id: &'a str,
    pub bot_id: &'a str,
    pub file_name: &'a str,
    pub forward_from: &'a str,
    pub size_min: &'a str,
    pub size_max: &'a str,
    pub file_id: &'a str,
    pub date_from: &'a str,
    pub date_to: &'a str,
}

/// Result of parsing the TGFS search form.
pub struct TgfsParsedFilters {
    pub conditions: Vec<Condition>,
    pub search_user_id: String,
    /// Absolute values of every comma-separated user id supplied. Empty if not
    /// supplied/invalid.
    pub actual_user_ids: Vec<i64>,
    pub is_exclusion: bool,
    pub search_bot_id: String,
    pub actual_bot_id: Option<i64>,
    pub bot_is_exclusion: bool,
    pub search_file_name: String,
    pub search_forward_from: String,
    pub search_size_min: i64,
    pub search_size_max: i64,
    pub size_filter_active: bool,
    pub search_file_id: String,
    pub search_date_from: String,
    pub search_date_to: String,
    pub date_filter_active: bool,
    pub invalid_user_id: bool,
    pub invalid_bot_id: bool,
    pub invalid_file_id: bool,
    pub invalid_date_range: bool,
}

/// What the bot-id field yields, as (condition, field as re-shown, bot id's absolute
/// value, negative, invalid): a negative id excludes that bot.
pub open spec fn bot_id_view(raw: Seq<char>) -> (Option<ConditionView>, Seq<char>, Option<i64>, bool, bool) {
    let t = text::trim(raw);
    if t.len() == 0 {
        (None, t, None, false, false)
    } else {
        match text::parse_i64(t) {
            Some(v) => if v < 0 {
                (
                    Some(ConditionView::BotIdNe(query_filters::abs_i64(v))),
                    t,
                    Some(query_filters::abs_i64(v)),
                    true,
                    false,
                )
            } else {
                (Some(ConditionView::BotIdEq(v)), t, Some(v), false, false)
            },
            None => (None, Seq::empty(), None, false, true),
        }
    }
}

/// What the file-id field yields, as (condition, field as re-shown, invalid).
pub open spec fn file_id_view(raw: Seq<char>) -> (Option<ConditionView>, Seq<char>, bool) {
    let t = text::trim(raw);
    if t.len() == 0 {
        (None, t, false)
    } else {
        match text::parse_i64(t) {
            Some(v) => (Some(ConditionView::FileIdEq(v)), t, false),
            None => (None, Seq::empty(), true),
        }
    }
}

pub open spec fn opt_seq(c: Option<ConditionView>) -> Seq<ConditionView> {
    match c {
        Some(x) => seq![x],
        None => Seq::empty(),
    }
}

/// `parse_tgfs_filters`: the conditions of a TGFS form, in this order: user ids, bot
/// id, one per file-name word (as typed), size range, forward name (as typed), file
/// id, date range on `added_at`.
pub open spec fn tgfs_conditions(
    user_id: Seq<char>,
    bot_id: Seq<char>,
    file_name: Seq<char>,
    forward_from: Seq<char>,
    size_min: Seq<char>,
    size_max: Seq<char>,
    file_id: Seq<char>,
    date_from: Seq<char>,
    date_to: Seq<char>,
) -> Seq<ConditionView> {
    let f = text::trim(forward_from);
    let fwd_part = if f.len() > 0 {
        seq![ConditionView::ForwardNameMatches(f)]
    } else {
        Seq::empty()
    };
    let d = query_filters::date_view(date_from, date_to);
    let date_part = if d.2 is Some || d.3 is Some {
        seq![ConditionView::AddedAtBetween(d.2, d.3)]
    } else {
        Seq::empty()
    };
    opt_seq(query_filters::user_id_view(user_id).0) + opt_seq(bot_id_view(bot_id).0)
        + query_filters::word_conditions(text::trim(file_name), false)
        + query_filters::size_conditions(query_filters::size_range(size_min, size_max)) + fwd_part
        + opt_seq(file_id_view(file_id).0) + date_part
}

/// `parse_tgfs_filters`: every field of the parsed TGFS form.
pub open spec fn tgfs_filters_ok(r: TgfsParsedFilters, input: TgfsRawFilterInput) -> bool {
    let u = query_filters::user_id_view(input.user_id@);
    let b = bot_id_view(input.bot_id@);
    let fid = file_id_view(input.file_id@);
    let (lo, hi) = query_filters::size_range(input.size_min@, input.size_max@);
    let d = query_filters::date_view(input.date_from@, input.date_to@);
    &&& query_filters::conditions_view(r.conditions@) == tgfs_conditions(
        input.user_id@,
        input.bot_id@,
        input.file_name@,
        input.forward_from@,
        input.size_min@,
        input.size_max@,
        input.file_id@,
        input.date_from@,
        input.date_to@,
    )
    &&& r.search_user_id@ == u.1
    &&& r.actual_user_ids@ == u.2
    &&& r.is_exclusion == u.3
    &&& r.invalid_user_id == u.4
    &&& r.search_bot_id@ == b.1
    &&& r.actual_bot_id == b.2
    &&& r.bot_is_exclusion == b.3
    &&& r.invalid_bot_id == b.4
    &&& r.search_file_name@ == text::trim(input.file_name@)
    &&& r.search_forward_from@ == text::trim(input.forward_from@)
    &&& r.search_size_min == lo
    &&& r.search_size_max == hi
    &&& r.size_filter_active == (lo > 0 || hi < MAX_SIZE_MB)
    &&& r.search_file_id@ == fid.1
    &&& r.invalid_file_id == fid.2
    &&& r.search_date_from@ == d.0
    &&& r.search_date_to@ == d.1
    &&& r.date_filter_active == (d.2 is Some || d.3 is Some)
    &&& r.invalid_date_range == d.4
}

/// No condition of `cs` is on the bot id.
pub open spec fn no_bot_condition(cs: Seq<ConditionView>) -> bool {
    forall|i: int| 0 <= i < cs.len() ==> !(#[trigger] cs[i] is BotIdEq) && !(cs[i] is BotIdNe)
}

/// Law: the bot-id field of a TGFS form includes or excludes one bot. A bot id `v`
/// typed in the field yields exactly one bot condition: `v` itself, included, when
/// `v` is not negative, and `-v` excluded when it is; the form is then valid and
/// reports `|v|` and whether it excludes.
pub proof fn lemma_bot_id_condition(r: TgfsParsedFilters, input: TgfsRawFilterInput, v: i64)
    requires
        tgfs_filters_ok(r, input),
        text::trim(input.bot_id@).len() > 0,
        text::parse_i64(text::trim(input.bot_id@)) == Some(v),
        v != i64::MIN,
    ensures
        ({
            let cs = query_filters::conditions_view(r.conditions@);
            let want = if v < 0 {
                ConditionView::BotIdNe(-v as i64)
            } else {
                ConditionView::BotIdEq(v)
            };
            &&& !r.invalid_bot_id
            &&& r.bot_is_exclusion == (v < 0)
            &&& r.actual_bot_id == Some(if v < 0 { -v as i64 } else { v })
            &&& exists|k: int| 0 <= k < cs.len() && #[trigger] cs[k] == want
            &&& forall|i: int|
                0 <= i < cs.len() && (#[trigger] cs[i] is BotIdEq || cs[i] is BotIdNe) ==> cs[i] == want
        }),
{
    let cs = query_filters::conditions_view(r.conditions@);
    let want = if v < 0 {
        ConditionView::BotIdNe(-v as i64)
    } else {
        ConditionView::BotIdEq(v)
    };
    let up = opt_seq(query_filters::user_id_view(input.user_id@).0);
    let bp = opt_seq(bot_id_view(input.bot_id@).0);
    let w = query_filters::word_conditions(text::trim(input.file_name@), false);
    let sz = query_filters::size_conditions(query_filters::size_range(input.size_min@, input.size_max@));
    let f = text::trim(input.forward_from@);
    let fwd = if f.len() > 0 {
        seq![ConditionView::ForwardNameMatches(f)]
    } else {
        Seq::<ConditionView>::empty()
    };
    let fp = opt_seq(file_id_view(input.file_id@).0);
    let d = query_filters::date_view(input.date_from@, input.date_to@);
    let dp = if d.2 is Some || d.3 is Some {
        seq![ConditionView::AddedAtBetween(d.2, d.3)]
    } else {
        Seq::<ConditionView>::empty()
    };
    let after = w + sz + fwd + fp + dp;
    assert(bp == seq![want]);
    assert(cs == up + bp + after);
    assert(no_bot_condition(up));
    assert(no_bot_condition(after)) by {
        assert forall|k: int| 0 <= k < after.len() implies !(#[trigger] after[k] is BotIdEq) && !(
        after[k] is BotIdNe) by {
            let a = w.len() as int;
            let b = a + sz.len();
            let c = b + fwd.len();
            let e = c + fp.len();
            if k < a {
                assert(after[k] == w[k]);
            } else if k < b {
                assert(after[k] == sz[k - a]);
            } else if k < c {
                assert(after[k] == fwd[k - b]);
            } else if k < e {
                assert(after[k] == fp[k - c]);
            } else {
                assert(after[k] == dp[k - e]);
            }
        }
    }
    let n = up.len() as int;
    assert(cs[n] == want);
    assert forall|i: int| 0 <= i < cs.len() && (#[trigger] cs[i] is BotIdEq || cs[i] is BotIdNe) implies cs[i]
        == want by {
        if i < n {
            assert(cs[i] == up[i]);
        } else if i > n {
            assert(cs[i] == after[i - n - 1]);
        }
    }
}

/// The bot id can be negated: `i64::abs` overflows on `i64::MIN`.
pub open spec fn bot_id_negatable(raw: Seq<char>) -> bool {
    text::parse_i64(text::trim(raw)) != Some(i64::MIN)
}

/// Whether the bot-id field can be parsed: it is not `i64::MIN`, whose absolute
/// value does not exist.
pub fn check_bot_id_negatable(raw: &str) -> (r: bool)
    ensures
        r == bot_id_negatable(raw@),
{
    match parse_trimmed_i64(raw) {
        Some(v) => v != i64::MIN,
        None => true,
    }
}

fn push_view(conds: &mut Vec<Condition>, c: Option<Condition>)
    ensures
        query_filters::conditions_view(final(conds)@) == query_filters::conditions_view(old(conds)@)
            + match c {
            Some(x) => seq![x@],
            None => Seq::<ConditionView>::empty(),
        },
{
    match c {
        Some(x) => {
            let ghost before = conds@;
            conds.push(x);
            proof {
                assert(query_filters::conditions_view(conds@) =~= query_filters::conditions_view(
                    before,
                ) + seq![x@]);
            }
        },
        None => {
            proof {
                assert(query_filters::conditions_view(conds@) =~= query_filters::conditions_view(
                    conds@,
                ) + Seq::<ConditionView>::empty());
            }
        },
    }
}

/// Parses the bot-id field.
pub fn parse_bot_id_field(raw: &str) -> (r: (Option<Condition>, String, Option<i64>, bool, bool))
    requires
        bot_id_negatable(raw@),
    ensures
        ({
            let v = bot_id_view(raw@);
            &&& match r.0 {
                Some(c) => v.0 == Some(c@),
                None => v.0 is None,
            }
            &&& r.1@ == v.1
            &&& r.2 == v.2
            &&& r.3 == v.3
            &&& r.4 == v.4
        }),
{
    let search_bot_id = trimmed_string(raw);
    if search_bot_id.as_str().is_empty() {
        return (None, search_bot_id, None, false, false);
    }
    match parse_trimmed_i64(raw) {
        Some(parsed) => {
            if parsed < 0 {
                let abs_id = -parsed;
                (Some(Condition::BotIdNe(abs_id)), search_bot_id, Some(abs_id), true, false)
            } else {
                (Some(Condition::BotIdEq(parsed)), search_bot_id, Some(parsed), false, false)
            }
        },
        None => (None, String::new(), None, false, true),
    }
}

/// Parses the Telegram file-id field (an exact number).
pub fn parse_file_id_field(raw: &str) -> (r: (Option<Condition>, String, bool))
    ensures
        ({
            let v = file_id_view(raw@);
            &&& match r.0 {
                Some(c) => v.0 == Some(c@),
                None => v.0 is None,
            }
            &&& r.1@ == v.1
            &&& r.2 == v.2
        }),
{
    let search_file_id = trimmed_string(raw);
    if search_file_id.as_str().is_empty() {
        return (None, search_file_id, false);
    }
    match parse_trimmed_i64(raw) {
        Some(fid) => (Some(Condition::FileIdEq(fid)), search_file_id, false),
        None => (None, String::new(), true),
    }
}

/// Parses the TGFS review/done search form.
#[verifier::rlimit(40)]
pub fn parse_tgfs_filters(input: TgfsRawFilterInput) -> (r: TgfsParsedFilters)
    requires
        query_filters::user_ids_negatable(input.user_id@),
        bot_id_negatable(input.bot_id@),
    ensures
        tgfs_filters_ok(r, input),
{
    let mut conditions: Vec<Condition> = Vec::new();
    let (size_min, size_max) = parse_size_range(input.size_min, input.size_max);
    let size_filter_active = size_min > 0 || size_max < MAX_SIZE_MB;

    let users = parse_user_id_filter(input.user_id);
    push_view(&mut conditions, users.condition);

    let (bot_cond, search_bot_id, actual_bot_id, bot_is_exclusion, invalid_bot_id) =
        parse_bot_id_field(input.bot_id);
    push_view(&mut conditions, bot_cond);

    let file_name = trimmed_string(input.file_name);
    let fnv = chars_of(file_name.as_str());
    push_word_conditions(&mut conditions, fnv.as_slice(), false);

    if size_filter_active {
        let ghost before = conditions@;
        conditions.push(Condition::FileSizeBetween(size_min * 1048576, size_max * 1048576));
        proof {
            assert(query_filters::conditions_view(conditions@) =~= query_filters::conditions_view(
                before,
            ) + query_filters::size_conditions((size_min, size_max)));
        }
    } else {
        proof {
            assert(query_filters::conditions_view(conditions@) =~= query_filters::conditions_view(
                conditions@,
            ) + query_filters::size_conditions((size_min, size_max)));
        }
    }

    let forward_from = trimmed_string(input.forward_from);
    if !forward_from.as_str().is_empty() {
        let ghost before = conditions@;
        conditions.push(Condition::ForwardNameMatches(forward_from.clone()));
        proof {
            assert(query_filters::conditions_view(conditions@) =~= query_filters::conditions_view(
                before,
            ) + seq![ConditionView::ForwardNameMatches(forward_from@)]);
        }
    }

    let (fid_cond, search_file_id, invalid_file_id) = parse_file_id_field(input.file_id);
    push_view(&mut conditions, fid_cond);

    let d = parse_date_filter(input.date_from, input.date_to);
    let date_filter_active = d.from_secs.is_some() || d.to_secs.is_some();
    if date_filter_active {
        let ghost before = conditions@;
        conditions.push(Condition::AddedAtBetween(d.from_secs, d.to_secs));
        proof {
            assert(query_filters::conditions_view(conditions@) =~= query_filters::conditions_view(
                before,
            ) + seq![ConditionView::AddedAtBetween(d.from_secs, d.to_secs)]);
        }
    }
    proof {
        let ghost expect = tgfs_conditions(
            input.user_id@,
            input.bot_id@,
            input.file_name@,
            input.forward_from@,
            input.size_min@,
            input.size_max@,
            input.file_id@,
            input.date_from@,
            input.date_to@,
        );
        assert(query_filters::conditions_view(conditions@) =~= expect);
    }
    TgfsParsedFilters {
        conditions,
        search_user_id: users.search_user_id,
        actual_user_ids: users.actual_user_ids,
        is_exclusion: users.is_exclusion,
        search_bot_id,
        actual_bot_id,
        bot_is_exclusion,
        search_file_name: file_name,
        search_forward_from: forward_from,
        search_size_min: size_min,
        search_size_max: size_max,
        size_filter_active,
        search_file_id,
        search_date_from: d.search_date_from,
        search_date_to: d.search_date_to,
        date_filter_active,
        invalid_user_id: users.invalid_user_id,
        invalid_bot_id,
        invalid_file_id,
        invalid_date_range: d.invalid_date_range,
    }
}

} // verus!
