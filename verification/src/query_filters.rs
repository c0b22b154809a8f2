//! Parsing of the PLGB search form (shared by the review and done pages) into the
//! conditions of a MongoDB query, plus the pieces the TGFS form shares with it.

use vstd::prelude::*;
use crate::dates::{self, ist_date_end_secs, ist_date_start_secs};
use crate::object_id::{self, oid_parse_str};
use crate::text::{
    self, chars_of, parse_i64_chars, parse_trimmed_i64, split_chars, split_words, string_of,
    trim_chars, trimmed_string,
};
use crate::util::{self, regex_escape};

verus! {

// ---------------------------------------------------------------------------
// Conditions
// ---------------------------------------------------------------------------

/// One condition of a file query; the caller ANDs them together.
#[derive(Clone, Debug)]
pub enum Condition {
    /// `{ user_id: v }`
    UserIdEq(i64),
    /// `{ user_id: { $ne: v } }`
    UserIdNe(i64),
    /// `{ user_id: { $in: vs } }`
    UserIdIn(Vec<i64>),
    /// `{ user_id: { $nin: vs } }`
    UserIdNotIn(Vec<i64>),
    /// `{ file_name: { $regex: pattern, $options: "i" } }`
    FileNameMatches(String),
    /// `{ file_size: { $gte: min, $lte: max } }` (bytes)
    FileSizeBetween(i64, i64),
    /// `{ $or: [...] }` of the pattern (case-insensitive) over `forward_first_name`,
    /// `forward_username`, `forward_chat_title` and `forward_chat_username`.
    ForwardFromMatches(String),
    /// `{ $or: [...] }` of the pattern (case-insensitive) over `forward_name` and
    /// `forward_username`.
    ForwardNameMatches(String),
    /// `{ _id: ObjectId(bytes) }`
    IdEq([u8; 12]),
    /// `{ time: { $gte: from, $lte: to } }` (unix seconds; absent bounds omitted)
    TimeBetween(Option<i64>, Option<i64>),
    /// `{ bot_id: v }`
    BotIdEq(i64),
    /// `{ bot_id: { $ne: v } }`
    BotIdNe(i64),
    /// `{ file_id: v }`
    FileIdEq(i64),
    /// `{ added_at: { $gte: from, $lte: to } }` (unix seconds, stored as dates;
    /// absent bounds omitted)
    AddedAtBetween(Option<i64>, Option<i64>),
    /// `{ is_public: { $exists: true } }`: already reviewed.
    IsReviewed,
    /// `{ is_public: { $exists: false } }`: not reviewed yet.
    IsPending,
    /// `{ is_public: b }`: accepted (`true`) or rejected (`false`).
    IsPublic(bool),
    /// `{ reviewed_by: { $regex: pattern, $options: "i" } }`
    ReviewedByMatches(String),
}

/// A [`Condition`] with its contents as mathematical values.
pub enum ConditionView {
    UserIdEq(i64),
    UserIdNe(i64),
    UserIdIn(Seq<i64>),
    UserIdNotIn(Seq<i64>),
    FileNameMatches(Seq<char>),
    FileSizeBetween(i64, i64),
    ForwardFromMatches(Seq<char>),
    ForwardNameMatches(Seq<char>),
    IdEq(Seq<u8>),
    TimeBetween(Option<i64>, Option<i64>),
    BotIdEq(i64),
    BotIdNe(i64),
    FileIdEq(i64),
    AddedAtBetween(Option<i64>, Option<i64>),
    IsReviewed,
    IsPending,
    IsPublic(bool),
    ReviewedByMatches(Seq<char>),
}

impl View for Condition {
    type V = ConditionView;

    open spec fn view(&self) -> ConditionView {
        match self {
            Condition::UserIdEq(v) => ConditionView::UserIdEq(*v),
            Condition::UserIdNe(v) => ConditionView::UserIdNe(*v),
            Condition::UserIdIn(vs) => ConditionView::UserIdIn(vs@),
            Condition::UserIdNotIn(vs) => ConditionView::UserIdNotIn(vs@),
            Condition::FileNameMatches(p) => ConditionView::FileNameMatches(p@),
            Condition::FileSizeBetween(a, b) => ConditionView::FileSizeBetween(*a, *b),
            Condition::ForwardFromMatches(p) => ConditionView::ForwardFromMatches(p@),
            Condition::ForwardNameMatches(p) => ConditionView::ForwardNameMatches(p@),
            Condition::IdEq(b) => ConditionView::IdEq(b@),
            Condition::TimeBetween(a, b) => ConditionView::TimeBetween(*a, *b),
            Condition::BotIdEq(v) => ConditionView::BotIdEq(*v),
            Condition::BotIdNe(v) => ConditionView::BotIdNe(*v),
            Condition::FileIdEq(v) => ConditionView::FileIdEq(*v),
            Condition::AddedAtBetween(a, b) => ConditionView::AddedAtBetween(*a, *b),
            Condition::IsReviewed => ConditionView::IsReviewed,
            Condition::IsPending => ConditionView::IsPending,
            Condition::IsPublic(b) => ConditionView::IsPublic(*b),
            Condition::ReviewedByMatches(p) => ConditionView::ReviewedByMatches(p@),
        }
    }
}

/// The views of a list of conditions.
pub open spec fn conditions_view(cs: Seq<Condition>) -> Seq<ConditionView> {
    Seq::new(cs.len(), |i: int| cs[i]@)
}

// ---------------------------------------------------------------------------
// Page size
// ---------------------------------------------------------------------------

/// Allowed values for the "how many files to show" dropdown.
pub open spec fn is_page_size_option(v: i64) -> bool {
    v == 5 || v == 10 || v == 25 || v == 50 || v == 100
}

/// The page size a `page_size` query value selects: the number it holds when it is
/// one of the offered options, else 10.
pub open spec fn spec_page_size(raw: Seq<char>) -> i64 {
    match text::parse_i64(text::trim(raw)) {
        Some(v) => if is_page_size_option(v) {
            v
        } else {
            10
        },
        None => 10,
    }
}

/// Parses the `page_size` query param, falling back to 10 for missing/unrecognized values.
pub fn parse_page_size(raw: &str) -> (r: i64)
    ensures
        r == spec_page_size(raw@),
        is_page_size_option(r),
{
    match parse_trimmed_i64(raw) {
        Some(v) => {
            if v == 5 || v == 10 || v == 25 || v == 50 || v == 100 {
                v
            } else {
                10
            }
        },
        None => 10,
    }
}

// ---------------------------------------------------------------------------
// Size range (MB)
// ---------------------------------------------------------------------------

/// Upper end of the size slider, in MB.
pub const MAX_SIZE_MB: i64 = 4200;

pub open spec fn clamp_mb(v: i64) -> i64 {
    if v < 0 {
        0
    } else if v > MAX_SIZE_MB {
        MAX_SIZE_MB
    } else {
        v
    }
}

pub open spec fn or_default(o: Option<i64>, d: i64) -> i64 {
    match o {
        Some(v) => v,
        None => d,
    }
}

/// The size range (MB) a form selects: each end parsed (0 and 4200 when missing or
/// not a number), clamped to 0..=4200, and swapped when given the wrong way round.
pub open spec fn size_range(min_raw: Seq<char>, max_raw: Seq<char>) -> (i64, i64) {
    let a = clamp_mb(or_default(text::parse_i64(text::trim(min_raw)), 0));
    let b = clamp_mb(or_default(text::parse_i64(text::trim(max_raw)), MAX_SIZE_MB));
    if a > b {
        (b, a)
    } else {
        (a, b)
    }
}

fn clamp_mb_exec(v: i64) -> (r: i64)
    ensures
        r == clamp_mb(v),
{
    if v < 0 {
        0
    } else if v > MAX_SIZE_MB {
        MAX_SIZE_MB
    } else {
        v
    }
}

/// The selected size range in MB.
pub fn parse_size_range(min_raw: &str, max_raw: &str) -> (r: (i64, i64))
    ensures
        r == size_range(min_raw@, max_raw@),
        0 <= r.0 <= r.1 <= MAX_SIZE_MB,
{
    let a = clamp_mb_exec(
        match parse_trimmed_i64(min_raw) {
            Some(v) => v,
            None => 0,
        },
    );
    let b = clamp_mb_exec(
        match parse_trimmed_i64(max_raw) {
            Some(v) => v,
            None => MAX_SIZE_MB,
        },
    );
    if a > b {
        (b, a)
    } else {
        (a, b)
    }
}

// ---------------------------------------------------------------------------
// User ids
// ---------------------------------------------------------------------------

/// The non-empty entries of a list.
pub open spec fn keep_nonempty(ps: Seq<Seq<char>>) -> Seq<Seq<char>>
    decreases ps.len(),
{
    if ps.len() == 0 {
        Seq::empty()
    } else if ps.last().len() == 0 {
        keep_nonempty(ps.drop_last())
    } else {
        keep_nonempty(ps.drop_last()).push(ps.last())
    }
}

pub open spec fn trim_all(ps: Seq<Seq<char>>) -> Seq<Seq<char>> {
    Seq::new(ps.len(), |i: int| text::trim(ps[i]))
}

/// Every entry parsed as an `i64`, or `None` if one does not parse.
pub open spec fn parse_all(ps: Seq<Seq<char>>) -> Option<Seq<i64>>
    decreases ps.len(),
{
    if ps.len() == 0 {
        Some(Seq::empty())
    } else {
        match (parse_all(ps.drop_last()), text::parse_i64(ps.last())) {
            (Some(a), Some(v)) => Some(a.push(v)),
            _ => None,
        }
    }
}

/// The user ids of a comma-separated list: every non-blank entry (trimmed) must be a
/// number, and there must be at least one.
pub open spec fn parse_user_ids(t: Seq<char>) -> Option<Seq<i64>> {
    match parse_all(keep_nonempty(trim_all(text::split_on(t, ',')))) {
        Some(ids) => if ids.len() > 0 {
            Some(ids)
        } else {
            None
        },
        None => None,
    }
}

pub open spec fn all_negative(ids: Seq<i64>) -> bool {
    forall|i: int| 0 <= i < ids.len() ==> #[trigger] ids[i] < 0
}

pub open spec fn abs_i64(v: i64) -> i64 {
    if v < 0 {
        (-v) as i64
    } else {
        v
    }
}

pub open spec fn abs_all(ids: Seq<i64>) -> Seq<i64> {
    Seq::new(ids.len(), |i: int| abs_i64(ids[i]))
}

/// The ids can be negated: `i64::abs` overflows on `i64::MIN`.
pub open spec fn user_ids_negatable(user_id: Seq<char>) -> bool {
    parse_user_ids(text::trim(user_id)) matches Some(ids) ==> forall|i: int|
        0 <= i < ids.len() ==> #[trigger] ids[i] != i64::MIN
}

/// The condition for a list of user ids: all negative means "none of these users"
/// (`$ne` for one, `$nin` for several), otherwise "one of these users" (`==`/`$in`),
/// always on the absolute values.
pub open spec fn user_id_condition(ids: Seq<i64>) -> ConditionView {
    let abs = abs_all(ids);
    if all_negative(ids) {
        if abs.len() == 1 {
            ConditionView::UserIdNe(abs[0])
        } else {
            ConditionView::UserIdNotIn(abs)
        }
    } else if abs.len() == 1 {
        ConditionView::UserIdEq(abs[0])
    } else {
        ConditionView::UserIdIn(abs)
    }
}

/// The user-id part of a parsed form.
pub struct UserIdFilter {
    pub condition: Option<Condition>,
    pub search_user_id: String,
    pub actual_user_ids: Vec<i64>,
    pub is_exclusion: bool,
    pub invalid_user_id: bool,
}

/// What the user-id field yields, as (condition, field as re-shown, ids' absolute
/// values, all-negative, invalid): nothing when blank; when the list parses, its
/// condition, the ids' absolute values and whether all were negative; when it does
/// not, the invalid flag and a cleared field.
pub open spec fn user_id_view(raw: Seq<char>) -> (Option<ConditionView>, Seq<char>, Seq<i64>, bool, bool) {
    let t = text::trim(raw);
    if t.len() == 0 {
        (None, t, Seq::empty(), false, false)
    } else {
        match parse_user_ids(t) {
            Some(ids) => (Some(user_id_condition(ids)), t, abs_all(ids), all_negative(ids), false),
            None => (None, Seq::empty(), Seq::empty(), false, true),
        }
    }
}

pub open spec fn user_id_filter_ok(r: UserIdFilter, raw: Seq<char>) -> bool {
    let v = user_id_view(raw);
    &&& match r.condition {
        Some(c) => v.0 == Some(c@),
        None => v.0 is None,
    }
    &&& r.search_user_id@ == v.1
    &&& r.actual_user_ids@ == v.2
    &&& r.is_exclusion == v.3
    &&& r.invalid_user_id == v.4
}

proof fn lemma_trim_all_push(ps: Seq<Seq<char>>, p: Seq<char>)
    ensures
        trim_all(ps.push(p)) == trim_all(ps).push(text::trim(p)),
{
    assert(trim_all(ps.push(p)) =~= trim_all(ps).push(text::trim(p)));
}

fn parse_id_list(t: &[char]) -> (r: Option<Vec<i64>>)
    ensures
        match r {
            Some(v) => parse_user_ids(t@) == Some(v@),
            None => parse_user_ids(t@) is None,
        },
{
    let pieces = split_chars(t, ',');
    let ghost sp = text::split_on(t@, ',');
    let mut ids: Vec<i64> = Vec::new();
    let mut ok = true;
    let mut i: usize = 0;
    proof {
        assert(sp.take(0) =~= Seq::<Seq<char>>::empty());
        assert(trim_all(Seq::<Seq<char>>::empty()) =~= Seq::<Seq<char>>::empty());
    }
    while i < pieces.len()
        invariant
            i <= pieces@.len(),
            pieces@.len() == sp.len(),
            forall|k: int| 0 <= k < pieces@.len() ==> #[trigger] pieces@[k]@ == sp[k],
            ok ==> parse_all(keep_nonempty(trim_all(sp.take(i as int)))) == Some(ids@),
            !ok ==> parse_all(keep_nonempty(trim_all(sp.take(i as int)))) is None,
        decreases pieces@.len() - i,
    {
        let ghost pre = sp.take(i as int);
        let p = trim_chars(pieces[i].as_slice());
        proof {
            assert(sp.take(i + 1) == pre.push(sp[i as int]));
            lemma_trim_all_push(pre, sp[i as int]);
            let tp = trim_all(pre).push(text::trim(sp[i as int]));
            assert(tp.drop_last() == trim_all(pre));
            assert(tp.last() == text::trim(sp[i as int]));
        }
        if p.len() > 0 {
            let ghost kn = keep_nonempty(trim_all(pre)).push(p@);
            proof {
                assert(kn.drop_last() == keep_nonempty(trim_all(pre)));
                assert(kn.last() == p@);
            }
            match parse_i64_chars(p.as_slice()) {
                Some(v) => {
                    if ok {
                        ids.push(v);
                    }
                },
                None => {
                    ok = false;
                },
            }
        }
        i = i + 1;
    }
    proof {
        assert(sp.take(sp.len() as int) == sp);
    }
    if ok && ids.len() > 0 {
        Some(ids)
    } else {
        None
    }
}

/// Whether the user-id field can be parsed: no id in it is `i64::MIN`, whose
/// absolute value does not exist.
pub fn check_user_ids_negatable(raw: &str) -> (r: bool)
    ensures
        r == user_ids_negatable(raw@),
{
    let v = chars_of(raw);
    let t = trim_chars(v.as_slice());
    match parse_id_list(t.as_slice()) {
        Some(ids) => {
            let mut i: usize = 0;
            while i < ids.len()
                invariant
                    i <= ids@.len(),
                    parse_user_ids(text::trim(raw@)) == Some(ids@),
                    forall|k: int| 0 <= k < i ==> #[trigger] ids@[k] != i64::MIN,
                decreases ids@.len() - i,
            {
                if ids[i] == i64::MIN {
                    proof {
                        assert(parse_user_ids(text::trim(raw@)) == Some(ids@));
                        assert(ids@[i as int] == i64::MIN);
                    }
                    return false;
                }
                i = i + 1;
            }
            true
        },
        None => true,
    }
}

/// Parses the user-id field: a comma-separated list, positive ids to include and
/// (when all are negative) ids to exclude.
pub fn parse_user_id_filter(raw: &str) -> (r: UserIdFilter)
    requires
        user_ids_negatable(raw@),
    ensures
        user_id_filter_ok(r, raw@),
{
    let v = chars_of(raw);
    let t = trim_chars(v.as_slice());
    if t.len() == 0 {
        return UserIdFilter {
            condition: None,
            search_user_id: string_of(t.as_slice()),
            actual_user_ids: Vec::new(),
            is_exclusion: false,
            invalid_user_id: false,
        };
    }
    match parse_id_list(t.as_slice()) {
        Some(ids) => {
            let mut all_neg = true;
            let mut abs: Vec<i64> = Vec::new();
            let mut i: usize = 0;
            while i < ids.len()
                invariant
                    i <= ids@.len(),
                    forall|k: int| 0 <= k < ids@.len() ==> #[trigger] ids@[k] != i64::MIN,
                    all_neg == (forall|k: int| 0 <= k < i ==> #[trigger] ids@[k] < 0),
                    abs@ == abs_all(ids@.take(i as int)),
                decreases ids@.len() - i,
            {
                let x = ids[i];
                if x >= 0 {
                    all_neg = false;
                }
                let a = if x < 0 {
                    -x
                } else {
                    x
                };
                abs.push(a);
                i = i + 1;
                proof {
                    assert(abs@ =~= abs_all(ids@.take(i as int)));
                }
            }
            proof {
                assert(ids@.take(ids@.len() as int) == ids@);
            }
            let cond = if all_neg {
                if abs.len() == 1 {
                    Condition::UserIdNe(abs[0])
                } else {
                    Condition::UserIdNotIn(abs.clone())
                }
            } else if abs.len() == 1 {
                Condition::UserIdEq(abs[0])
            } else {
                Condition::UserIdIn(abs.clone())
            };
            UserIdFilter {
                condition: Some(cond),
                search_user_id: string_of(t.as_slice()),
                actual_user_ids: abs,
                is_exclusion: all_neg,
                invalid_user_id: false,
            }
        },
        None => UserIdFilter {
            condition: None,
            search_user_id: String::new(),
            actual_user_ids: Vec::new(),
            is_exclusion: false,
            invalid_user_id: true,
        },
    }
}

// ---------------------------------------------------------------------------
// Date range
// ---------------------------------------------------------------------------

/// The date-range part of a parsed form.
pub struct DateFilter {
    pub search_date_from: String,
    pub search_date_to: String,
    pub from_secs: Option<i64>,
    pub to_secs: Option<i64>,
    pub invalid_date_range: bool,
}

/// What the two date fields yield, as (from field, to field, from, to, invalid):
/// each non-blank field that is not a date is cleared and flags the range invalid;
/// a range given the wrong way round (the from day after the to day) has its two
/// fields swapped. The range then runs from the first second of the from day to the
/// last second of the to day, in IST.
pub open spec fn date_view(from_raw: Seq<char>, to_raw: Seq<char>) -> (Seq<char>, Seq<char>, Option<i64>, Option<i64>, bool) {
    let fs = text::trim(from_raw);
    let ts = text::trim(to_raw);
    let fe = if fs.len() == 0 {
        None
    } else {
        dates::spec_day_start(fs)
    };
    let te = if ts.len() == 0 {
        None
    } else {
        dates::spec_day_end(ts)
    };
    let fs2 = if fs.len() > 0 && fe is None {
        Seq::<char>::empty()
    } else {
        fs
    };
    let ts2 = if ts.len() > 0 && te is None {
        Seq::<char>::empty()
    } else {
        ts
    };
    let invalid = (fs.len() > 0 && fe is None) || (ts.len() > 0 && te is None);
    if fe matches Some(f) && te matches Some(t) && f > t {
        (ts, fs, dates::spec_day_start(ts), dates::spec_day_end(fs), invalid)
    } else {
        (fs2, ts2, fe, te, invalid)
    }
}

pub open spec fn date_filter_ok(r: DateFilter, from_raw: Seq<char>, to_raw: Seq<char>) -> bool {
    let v = date_view(from_raw, to_raw);
    &&& r.search_date_from@ == v.0
    &&& r.search_date_to@ == v.1
    &&& r.from_secs == v.2
    &&& r.to_secs == v.3
    &&& r.invalid_date_range == v.4
}

/// Parses the two date fields of a form into a (normalised) range of unix seconds.
pub fn parse_date_filter(from_raw: &str, to_raw: &str) -> (r: DateFilter)
    ensures
        date_filter_ok(r, from_raw@, to_raw@),
        (r.from_secs is Some && r.to_secs is Some) ==> r.from_secs->0 <= r.to_secs->0,
{
    let fv = chars_of(from_raw);
    let fsv = trim_chars(fv.as_slice());
    let tv = chars_of(to_raw);
    let tsv = trim_chars(tv.as_slice());
    let mut invalid = false;
    let mut fs = string_of(fsv.as_slice());
    let mut ts = string_of(tsv.as_slice());
    let mut fe: Option<i64> = None;
    if fsv.len() > 0 {
        fe = ist_date_start_secs(fs.as_str());
        if fe.is_none() {
            invalid = true;
            fs = String::new();
        }
    }
    let mut te: Option<i64> = None;
    if tsv.len() > 0 {
        te = ist_date_end_secs(ts.as_str());
        if te.is_none() {
            invalid = true;
            ts = String::new();
        }
    }
    let swap = match (fe, te) {
        (Some(f), Some(t)) => f > t,
        _ => false,
    };
    if swap {
        let from_secs = ist_date_start_secs(ts.as_str());
        let to_secs = ist_date_end_secs(fs.as_str());
        DateFilter {
            search_date_from: ts,
            search_date_to: fs,
            from_secs,
            to_secs,
            invalid_date_range: invalid,
        }
    } else {
        DateFilter {
            search_date_from: fs,
            search_date_to: ts,
            from_secs: fe,
            to_secs: te,
            invalid_date_range: invalid,
        }
    }
}

// ---------------------------------------------------------------------------
// File-name words
// ---------------------------------------------------------------------------

/// One `file_name` condition per whitespace-separated word (each must match),
/// the word escaped when `escape` is set.
pub open spec fn word_conditions(t: Seq<char>, escape: bool) -> Seq<ConditionView> {
    Seq::new(
        text::words(t).len(),
        |i: int|
            ConditionView::FileNameMatches(
                if escape {
                    util::escape_regex(text::words(t)[i])
                } else {
                    text::words(t)[i]
                },
            ),
    )
}

/// Appends one `FileNameMatches` per word of `t`.
pub fn push_word_conditions(conds: &mut Vec<Condition>, t: &[char], escape: bool)
    ensures
        conditions_view(final(conds)@) == conditions_view(old(conds)@) + word_conditions(t@, escape),
{
    let ws = split_words(t);
    let ghost c0 = conds@;
    let mut i: usize = 0;
    while i < ws.len()
        invariant
            i <= ws@.len(),
            ws@.len() == text::words(t@).len(),
            forall|k: int| 0 <= k < ws@.len() ==> #[trigger] ws@[k]@ == text::words(t@)[k],
            conditions_view(conds@) == conditions_view(c0) + word_conditions(t@, escape).take(i as int),
        decreases ws@.len() - i,
    {
        let w = string_of(ws[i].as_slice());
        let pat = if escape {
            regex_escape(w.as_str())
        } else {
            w
        };
        let ghost before = conds@;
        conds.push(Condition::FileNameMatches(pat));
        i = i + 1;
        proof {
            assert(conditions_view(conds@) =~= conditions_view(before).push(
                word_conditions(t@, escape)[i - 1],
            ));
            assert(word_conditions(t@, escape).take(i as int) =~= word_conditions(t@, escape).take(
                i - 1,
            ).push(word_conditions(t@, escape)[i - 1]));
        }
    }
    proof {
        assert(word_conditions(t@, escape).take(ws@.len() as int) =~= word_conditions(t@, escape));
    }
}

// ---------------------------------------------------------------------------
// The PLGB form
// ---------------------------------------------------------------------------

/// The raw search-form fields, as typed.
pub struct RawFilterInput<'a> {
    pub user_id: &'a str,
    pub file_name: &'a str,
    pub forward_from: &'a str,
    pub size_min: &'a str,
    pub size_max: &'a str,
    pub id: &'a str,
    pub date_from: &'a str,
    pub date_to: &'a str,
}

/// Result of parsing the PLGB search form. Callers add their own extra conditions
/// (e.g. the `is_public` existence check) on top of `conditions`.
pub struct ParsedFilters {
    pub conditions: Vec<Condition>,
    /// Raw user id string as typed (kept for re-populating the form).
    pub search_user_id: String,
    /// Absolute values of every comma-separated user id supplied (OR'd together via `$in`,
    /// or `$nin` when all are negative). Empty if not supplied/invalid.
    pub actual_user_ids: Vec<i64>,
    pub is_exclusion: bool,
    pub search_file_name: String,
    pub search_forward_from: String,
    pub search_size_min: i64,
    pub search_size_max: i64,
    pub size_filter_active: bool,
    pub search_id: String,
    /// Raw `YYYY-MM-DD` strings as typed, IST calendar days.
    pub search_date_from: String,
    pub search_date_to: String,
    pub date_filter_active: bool,
    pub invalid_user_id: bool,
    pub invalid_file_id: bool,
    pub invalid_date_range: bool,
}

/// The condition on a size range, present unless it is the full 0..=4200 MB.
pub open spec fn size_conditions(range: (i64, i64)) -> Seq<ConditionView> {
    if range.0 > 0 || range.1 < MAX_SIZE_MB {
        seq![ConditionView::FileSizeBetween((range.0 * 1048576) as i64, (range.1 * 1048576) as i64)]
    } else {
        Seq::empty()
    }
}

/// The bytes of an object id text (24 hex digits).
pub open spec fn oid_bytes(t: Seq<char>) -> Seq<u8> {
    choose|b: Seq<u8>| #[trigger] object_id::hex_decodes_to(t, b)
}

/// `parse_filters`: the conditions of a PLGB form, in this order: user ids, one per
/// file-name word (escaped), size range, forward-from (escaped), object id, date
/// range on `time`.
pub open spec fn plgb_conditions(
    user_id: Seq<char>,
    file_name: Seq<char>,
    forward_from: Seq<char>,
    size_min: Seq<char>,
    size_max: Seq<char>,
    id: Seq<char>,
    date_from: Seq<char>,
    date_to: Seq<char>,
) -> Seq<ConditionView> {
    let user_part = match user_id_view(user_id).0 {
        Some(c) => seq![c],
        None => Seq::empty(),
    };
    let d = date_view(date_from, date_to);
    let from_secs = d.2;
    let to_secs = d.3;
    let f = text::trim(forward_from);
    let fwd_part = if f.len() > 0 {
        seq![ConditionView::ForwardFromMatches(util::escape_regex(f))]
    } else {
        Seq::empty()
    };
    let i = text::trim(id);
    let id_part = if i.len() > 0 && object_id::is_oid_text(i) {
        seq![ConditionView::IdEq(oid_bytes(i))]
    } else {
        Seq::empty()
    };
    let date_part = if from_secs is Some || to_secs is Some {
        seq![ConditionView::TimeBetween(from_secs, to_secs)]
    } else {
        Seq::empty()
    };
    user_part + word_conditions(text::trim(file_name), true) + size_conditions(
        size_range(size_min, size_max),
    ) + fwd_part + id_part + date_part
}

/// `parse_filters`: every field of the parsed PLGB form.
pub open spec fn parsed_filters_ok(
    r: ParsedFilters,
    user_id: Seq<char>,
    file_name: Seq<char>,
    forward_from: Seq<char>,
    size_min: Seq<char>,
    size_max: Seq<char>,
    id: Seq<char>,
    date_from: Seq<char>,
    date_to: Seq<char>,
) -> bool {
    let u = user_id_view(user_id);
    let (lo, hi) = size_range(size_min, size_max);
    let i = text::trim(id);
    let d = date_view(date_from, date_to);
    &&& conditions_view(r.conditions@) == plgb_conditions(
        user_id,
        file_name,
        forward_from,
        size_min,
        size_max,
        id,
        date_from,
        date_to,
    )
    &&& r.search_user_id@ == u.1
    &&& r.actual_user_ids@ == u.2
    &&& r.is_exclusion == u.3
    &&& r.invalid_user_id == u.4
    &&& r.search_file_name@ == text::trim(file_name)
    &&& r.search_forward_from@ == text::trim(forward_from)
    &&& r.search_size_min == lo
    &&& r.search_size_max == hi
    &&& r.size_filter_active == (lo > 0 || hi < MAX_SIZE_MB)
    &&& r.invalid_file_id == (i.len() > 0 && !object_id::is_oid_text(i))
    &&& r.search_id@ == (if r.invalid_file_id {
        Seq::<char>::empty()
    } else {
        i
    })
    &&& r.search_date_from@ == d.0
    &&& r.search_date_to@ == d.1
    &&& r.date_filter_active == (d.2 is Some || d.3 is Some)
    &&& r.invalid_date_range == d.4
}

/// No condition of `cs` is a forward-from match.
pub open spec fn no_forward_from(cs: Seq<ConditionView>) -> bool {
    forall|i: int| 0 <= i < cs.len() ==> !(#[trigger] cs[i] is ForwardFromMatches)
}

/// Law: the forward-from field of a PLGB form filters on the forwarding source.
/// A non-blank field yields exactly one forward-from condition, whose pattern is
/// the trimmed field regex-escaped; a blank one yields none.
pub proof fn lemma_forward_from_condition(
    r: ParsedFilters,
    user_id: Seq<char>,
    file_name: Seq<char>,
    forward_from: Seq<char>,
    size_min: Seq<char>,
    size_max: Seq<char>,
    id: Seq<char>,
    date_from: Seq<char>,
    date_to: Seq<char>,
)
    requires
        parsed_filters_ok(r, user_id, file_name, forward_from, size_min, size_max, id, date_from, date_to),
    ensures
        ({
            let cs = conditions_view(r.conditions@);
            let f = text::trim(forward_from);
            &&& f.len() > 0 ==> exists|k: int|
                0 <= k < cs.len() && #[trigger] cs[k] == ConditionView::ForwardFromMatches(util::escape_regex(f))
            &&& forall|i: int, j: int|
                0 <= i < cs.len() && 0 <= j < cs.len() && #[trigger] cs[i] is ForwardFromMatches
                    && #[trigger] cs[j] is ForwardFromMatches ==> i == j
            &&& f.len() == 0 ==> no_forward_from(cs)
        }),
{
    let cs = conditions_view(r.conditions@);
    let f = text::trim(forward_from);
    let up = match user_id_view(user_id).0 {
        Some(c) => seq![c],
        None => Seq::<ConditionView>::empty(),
    };
    let w = word_conditions(text::trim(file_name), true);
    let sz = size_conditions(size_range(size_min, size_max));
    let fwd = if f.len() > 0 {
        seq![ConditionView::ForwardFromMatches(util::escape_regex(f))]
    } else {
        Seq::<ConditionView>::empty()
    };
    let i = text::trim(id);
    let idp = if i.len() > 0 && object_id::is_oid_text(i) {
        seq![ConditionView::IdEq(oid_bytes(i))]
    } else {
        Seq::<ConditionView>::empty()
    };
    let d = date_view(date_from, date_to);
    let dp = if d.2 is Some || d.3 is Some {
        seq![ConditionView::TimeBetween(d.2, d.3)]
    } else {
        Seq::<ConditionView>::empty()
    };
    let before = up + w + sz;
    let after = idp + dp;
    assert(cs == before + fwd + after);
    assert(no_forward_from(before)) by {
        assert forall|k: int| 0 <= k < before.len() implies !(#[trigger] before[k] is ForwardFromMatches) by {
            if k < up.len() {
                assert(before[k] == up[k]);
            } else if k < up.len() + w.len() {
                assert(before[k] == w[k - up.len()]);
            } else {
                assert(before[k] == sz[k - up.len() - w.len()]);
            }
        }
    }
    assert(no_forward_from(after)) by {
        assert forall|k: int| 0 <= k < after.len() implies !(#[trigger] after[k] is ForwardFromMatches) by {
            if k < idp.len() {
                assert(after[k] == idp[k]);
            } else {
                assert(after[k] == dp[k - idp.len()]);
            }
        }
    }
    let n = before.len() as int;
    assert forall|k: int| 0 <= k < cs.len() && #[trigger] cs[k] is ForwardFromMatches implies n <= k < n
        + fwd.len() by {
        if k < n {
            assert(cs[k] == before[k]);
        } else if k >= n + fwd.len() {
            assert(cs[k] == after[k - n - fwd.len()]);
        }
    }
    if f.len() > 0 {
        assert(cs[n] == ConditionView::ForwardFromMatches(util::escape_regex(f)));
    }
}

/// Appends the condition of a user-id filter, if any.
fn push_opt(conds: &mut Vec<Condition>, c: Option<Condition>)
    ensures
        conditions_view(final(conds)@) == conditions_view(old(conds)@) + match c {
            Some(x) => seq![x@],
            None => Seq::<ConditionView>::empty(),
        },
{
    match c {
        Some(x) => {
            let ghost before = conds@;
            conds.push(x);
            proof {
                assert(conditions_view(conds@) =~= conditions_view(before) + seq![x@]);
            }
        },
        None => {
            proof {
                assert(conditions_view(conds@) =~= conditions_view(conds@) + Seq::<ConditionView>::empty());
            }
        },
    }
}

/// Parses the object-id field: its condition, the field as re-shown, and whether it
/// was invalid.
pub fn parse_id_field(raw: &str) -> (r: (Option<Condition>, String, bool))
    ensures
        ({
            let i = text::trim(raw@);
            &&& r.2 == (i.len() > 0 && !object_id::is_oid_text(i))
            &&& r.1@ == (if r.2 {
                Seq::<char>::empty()
            } else {
                i
            })
            &&& match r.0 {
                Some(c) => i.len() > 0 && object_id::is_oid_text(i) && c@ == ConditionView::IdEq(
                    oid_bytes(i),
                ),
                None => !(i.len() > 0 && object_id::is_oid_text(i)),
            }
        }),
{
    let s = trimmed_string(raw);
    if s.as_str().is_empty() {
        return (None, s, false);
    }
    match oid_parse_str(s.as_str()) {
        Ok(b) => {
            proof {
                let c = oid_bytes(s@);
                object_id::lemma_hex_decodes_unique(s@, c, b@);
            }
            (Some(Condition::IdEq(b)), s, false)
        },
        Err(_) => (None, String::new(), true),
    }
}

/// Parses the shared set of search-form fields used by the review and done pages.
pub fn parse_filters(input: RawFilterInput) -> (r: ParsedFilters)
    requires
        user_ids_negatable(input.user_id@),
    ensures
        parsed_filters_ok(
            r,
            input.user_id@,
            input.file_name@,
            input.forward_from@,
            input.size_min@,
            input.size_max@,
            input.id@,
            input.date_from@,
            input.date_to@,
        ),
{
    let mut conditions: Vec<Condition> = Vec::new();
    let (size_min, size_max) = parse_size_range(input.size_min, input.size_max);
    let size_filter_active = size_min > 0 || size_max < MAX_SIZE_MB;

    let users = parse_user_id_filter(input.user_id);
    push_opt(&mut conditions, users.condition);

    let file_name = trimmed_string(input.file_name);
    let fnv = chars_of(file_name.as_str());
    push_word_conditions(&mut conditions, fnv.as_slice(), true);

    if size_filter_active {
        let ghost before = conditions@;
        conditions.push(Condition::FileSizeBetween(size_min * 1048576, size_max * 1048576));
        proof {
            assert(conditions_view(conditions@) =~= conditions_view(before) + size_conditions(
                (size_min, size_max),
            ));
        }
    } else {
        proof {
            assert(conditions_view(conditions@) =~= conditions_view(conditions@) + size_conditions(
                (size_min, size_max),
            ));
        }
    }

    let forward_from = trimmed_string(input.forward_from);
    if !forward_from.as_str().is_empty() {
        let pat = regex_escape(forward_from.as_str());
        let ghost before = conditions@;
        conditions.push(Condition::ForwardFromMatches(pat));
        proof {
            assert(conditions_view(conditions@) =~= conditions_view(before) + seq![
                ConditionView::ForwardFromMatches(util::escape_regex(forward_from@)),
            ]);
        }
    }

    let (id_cond, search_id, invalid_file_id) = parse_id_field(input.id);
    push_opt(&mut conditions, id_cond);

    let d = parse_date_filter(input.date_from, input.date_to);
    let date_filter_active = d.from_secs.is_some() || d.to_secs.is_some();
    if date_filter_active {
        let ghost before = conditions@;
        conditions.push(Condition::TimeBetween(d.from_secs, d.to_secs));
        proof {
            assert(conditions_view(conditions@) =~= conditions_view(before) + seq![
                ConditionView::TimeBetween(d.from_secs, d.to_secs),
            ]);
        }
    }
    proof {
        let ghost expect = plgb_conditions(
            input.user_id@,
            input.file_name@,
            input.forward_from@,
            input.size_min@,
            input.size_max@,
            input.id@,
            input.date_from@,
            input.date_to@,
        );
        assert(conditions_view(conditions@) =~= expect);
    }
    ParsedFilters {
        conditions,
        search_user_id: users.search_user_id,
        actual_user_ids: users.actual_user_ids,
        is_exclusion: users.is_exclusion,
        search_file_name: file_name,
        search_forward_from: forward_from,
        search_size_min: size_min,
        search_size_max: size_max,
        size_filter_active,
        search_id,
        search_date_from: d.search_date_from,
        search_date_to: d.search_date_to,
        date_filter_active,
        invalid_user_id: users.invalid_user_id,
        invalid_file_id,
        invalid_date_range: d.invalid_date_range,
    }
}

} // verus!
