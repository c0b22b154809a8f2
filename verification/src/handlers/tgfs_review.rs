//! The TGFS review page and its bulk submit endpoint.

use vstd::prelude::*;
use std::collections::HashMap;
use crate::handlers::review::{error_flash, flashes_view};
use crate::handlers::tgfs_done::joined_blob;
use crate::models::Flash;
use crate::text::{self, char_to_uppercase, chars_of, i64_to_string, join_ids, join_strings, push_str, string_from, string_of, slice_to_vec};
use crate::tgfs_models::{TgfsBlobDoc, TgfsFileCard, TgfsIndexDoc, bool_of, tgfs_card_ok};
use crate::tgfs_models::TgfsReviewStats;
use crate::tgfs_query_filters::TgfsParsedFilters;
use crate::util;

verus! {

/// Query parameters of the TGFS review page.
#[derive(Clone, Debug)]
pub struct TgfsReviewQuery {
    pub user_id: String,
    pub bot_id: String,
    pub file_name: String,
    pub forward_from: String,
    pub file_id: String,
    pub size_min: String,
    pub size_max: String,
    pub date_from: String,
    pub date_to: String,
    pub page_size: String,
}

/// Body of the TGFS bulk submission, keyed by entry id (`"{cluster}:{objectid_hex}"`).
#[derive(Clone, Debug)]
pub struct TgfsSubmitPayload {
    pub decisions: HashMap<String, String>,
    pub file_names: HashMap<String, String>,
}

// ---------------------------------------------------------------------------
// Cards and counts
// ---------------------------------------------------------------------------

/// The cards of a sample of pending entries, numbered from 1, each joined with the
/// blob stored under its file id.
pub fn tgfs_review_cards(
    sample: &[(usize, TgfsIndexDoc)],
    blobs: &HashMap<i64, TgfsBlobDoc>,
    secret: &[u8],
    public_url: &str,
) -> (cards: Vec<TgfsFileCard>)
    ensures
        cards@.len() == sample@.len(),
        forall|k: int|
            0 <= k < cards@.len() ==> tgfs_card_ok(
                #[trigger] cards@[k],
                sample@[k].1,
                joined_blob(sample@[k].1, blobs@),
                sample@[k].0,
                (k + 1) as usize,
                secret@,
                public_url@,
            ),
{
    broadcast use vstd::std_specs::hash::group_hash_axioms;

    let mut cards: Vec<TgfsFileCard> = Vec::new();
    let mut i: usize = 0;
    while i < sample.len()
        invariant
            i <= sample@.len(),
            cards@.len() == i,
            forall|k: int|
                0 <= k < cards@.len() ==> tgfs_card_ok(
                    #[trigger] cards@[k],
                    sample@[k].1,
                    joined_blob(sample@[k].1, blobs@),
                    sample@[k].0,
                    (k + 1) as usize,
                    secret@,
                    public_url@,
                ),
        decreases sample@.len() - i,
    {
        let d = &sample[i].1;
        let fid = match d.file_id {
            Some(v) => v,
            None => 0,
        };
        let card = TgfsFileCard::from_docs(d, blobs.get(&fid), sample[i].0, i + 1, secret, public_url);
        cards.push(card);
        i = i + 1;
    }
    cards
}

/// Review status of the first `n` candidates, as (reviewed, accepted, rejected):
/// an entry is reviewed when its blob has `reviewed_at`, and then rejected when the
/// blob is restricted, else accepted.
pub open spec fn review_counts(
    candidates: Seq<(usize, TgfsIndexDoc)>,
    blobs: Map<i64, TgfsBlobDoc>,
    n: int,
) -> (nat, nat, nat)
    decreases n,
{
    if n <= 0 {
        (0, 0, 0)
    } else {
        let (r, a, j) = review_counts(candidates, blobs, n - 1);
        match joined_blob(candidates[n - 1].1, blobs) {
            Some(b) => if b.has_reviewed_at {
                if bool_of(b.is_restricted) {
                    (r + 1, a, j + 1)
                } else {
                    (r + 1, a + 1, j)
                }
            } else {
                (r, a, j)
            },
            None => (r, a, j),
        }
    }
}

/// (reviewed, accepted, rejected) among the candidates.
pub fn tgfs_review_counts(candidates: &[(usize, TgfsIndexDoc)], blobs: &HashMap<i64, TgfsBlobDoc>) -> (r: (
    usize,
    usize,
    usize,
))
    ensures
        (r.0 as nat, r.1 as nat, r.2 as nat) == review_counts(candidates@, blobs@, candidates@.len() as int),
        r.0 == r.1 + r.2,
        r.0 <= candidates@.len(),
{
    broadcast use vstd::std_specs::hash::group_hash_axioms;

    let mut reviewed: usize = 0;
    let mut accepted: usize = 0;
    let mut rejected: usize = 0;
    let mut i: usize = 0;
    while i < candidates.len()
        invariant
            i <= candidates@.len(),
            (reviewed as nat, accepted as nat, rejected as nat) == review_counts(candidates@, blobs@, i as int),
            reviewed == accepted + rejected,
            reviewed <= i,
        decreases candidates@.len() - i,
    {
        let d = &candidates[i].1;
        let fid = match d.file_id {
            Some(v) => v,
            None => 0,
        };
        match blobs.get(&fid) {
            Some(b) => {
                if b.has_reviewed_at {
                    reviewed = reviewed + 1;
                    if b.is_restricted == Some(true) {
                        rejected = rejected + 1;
                    } else {
                        accepted = accepted + 1;
                    }
                }
            },
            None => {},
        }
        i = i + 1;
    }
    (reviewed, accepted, rejected)
}

// ---------------------------------------------------------------------------
// Describing the search
// ---------------------------------------------------------------------------

/// The active filters in words, shared by the "nothing found" message and the
/// heading: the user (or the users excluded), the bot (or the bot excluded) and
/// the quoted file name, each when searched for.
pub open spec fn spec_filter_parts(
    search_user_id: Seq<char>,
    is_exclusion: bool,
    actual_user_ids: Seq<i64>,
    search_bot_id: Seq<char>,
    bot_is_exclusion: bool,
    actual_bot_id: Option<i64>,
    search_file_name: Seq<char>,
) -> Seq<Seq<char>> {
    (if search_user_id.len() > 0 {
        seq![
            if is_exclusion {
                "excluding user "@ + text::join_with(text::ids_text(actual_user_ids), ", "@)
            } else {
                "user "@ + search_user_id
            },
        ]
    } else {
        Seq::empty()
    }) + (if search_bot_id.len() > 0 {
        seq![
            if bot_is_exclusion {
                "excluding bot "@ + text::int_decimal(
                    match actual_bot_id {
                        Some(v) => v as int,
                        None => 0,
                    },
                )
            } else {
                "bot "@ + search_bot_id
            },
        ]
    } else {
        Seq::empty()
    }) + (if search_file_name.len() > 0 {
        seq!["matching \""@ + search_file_name + "\""@]
    } else {
        Seq::empty()
    })
}

/// The active filters of a parsed TGFS search, in words.
pub fn filter_parts(parsed: &TgfsParsedFilters) -> (parts: Vec<String>)
    ensures
        text::strings_view(parts@) == spec_filter_parts(
            parsed.search_user_id@,
            parsed.is_exclusion,
            parsed.actual_user_ids@,
            parsed.search_bot_id@,
            parsed.bot_is_exclusion,
            parsed.actual_bot_id,
            parsed.search_file_name@,
        ),
{
    let mut parts: Vec<String> = Vec::new();
    if !parsed.search_user_id.as_str().is_empty() {
        if parsed.is_exclusion {
            let mut p = string_from("excluding user ");
            let ids = join_ids(parsed.actual_user_ids.as_slice());
            push_str(&mut p, ids.as_str());
            parts.push(p);
        } else {
            let mut p = string_from("user ");
            push_str(&mut p, parsed.search_user_id.as_str());
            parts.push(p);
        }
    }
    let ghost after_user = parts@;
    if !parsed.search_bot_id.as_str().is_empty() {
        if parsed.bot_is_exclusion {
            let mut p = string_from("excluding bot ");
            let id = match parsed.actual_bot_id {
                Some(v) => v,
                None => 0,
            };
            let n = i64_to_string(id);
            push_str(&mut p, n.as_str());
            parts.push(p);
        } else {
            let mut p = string_from("bot ");
            push_str(&mut p, parsed.search_bot_id.as_str());
            parts.push(p);
        }
    }
    let ghost after_bot = parts@;
    if !parsed.search_file_name.as_str().is_empty() {
        let mut p = string_from("matching \"");
        push_str(&mut p, parsed.search_file_name.as_str());
        push_str(&mut p, "\"");
        parts.push(p);
    }
    proof {
        assert(text::strings_view(parts@) =~= spec_filter_parts(
            parsed.search_user_id@,
            parsed.is_exclusion,
            parsed.actual_user_ids@,
            parsed.search_bot_id@,
            parsed.bot_is_exclusion,
            parsed.actual_bot_id,
            parsed.search_file_name@,
        ));
    }
    parts
}

/// The message shown when no pending entry was found.
pub open spec fn spec_tgfs_empty_message(parts: Seq<Seq<char>>, has_any_filter: bool) -> Seq<char> {
    if parts.len() > 0 {
        "No pending files found for "@ + text::join_with(parts, ", "@)
    } else if has_any_filter {
        "No pending files found matching your filters"@
    } else {
        "No files pending review!"@
    }
}

/// The message shown when no pending entry was found.
pub fn tgfs_empty_message(parts: &[String], has_any_filter: bool) -> (m: String)
    ensures
        m@ == spec_tgfs_empty_message(text::strings_view(parts@), has_any_filter),
{
    if parts.len() > 0 {
        let mut m = string_from("No pending files found for ");
        let j = join_strings(parts, ", ");
        push_str(&mut m, j.as_str());
        m
    } else if has_any_filter {
        string_from("No pending files found matching your filters")
    } else {
        string_from("No files pending review!")
    }
}

/// `s` with its first character upper-cased.
pub open spec fn capitalized(s: Seq<char>) -> Seq<char> {
    if s.len() == 0 {
        Seq::empty()
    } else {
        text::char_uppercase(s[0]) + s.skip(1)
    }
}

/// `s` with its first character replaced by `first_upper` (the upper-case form of
/// that character, already computed); empty when `s` is.
pub fn capitalize_with(first_upper: &str, s: &str) -> (r: String)
    ensures
        r@ == (if s@.len() == 0 {
            Seq::<char>::empty()
        } else {
            first_upper@ + s@.skip(1)
        }),
{
    let v = chars_of(s);
    if v.len() == 0 {
        return String::new();
    }
    let mut r = string_from(first_upper);
    let rest = slice_to_vec(v.as_slice(), 1, v.len());
    let rest_s = string_of(rest.as_slice());
    push_str(&mut r, rest_s.as_str());
    proof {
        assert(rest@ == s@.skip(1));
    }
    r
}

/// `s` with its first character upper-cased.
pub fn capitalize(s: &str) -> (r: String)
    ensures
        r@ == capitalized(s@),
{
    let v = chars_of(s);
    if v.len() == 0 {
        return String::new();
    }
    let upper = char_to_uppercase(v[0]);
    capitalize_with(upper.as_str(), s)
}

pub open spec fn capitalized_all(parts: Seq<Seq<char>>) -> Seq<Seq<char>> {
    Seq::new(parts.len(), |i: int| capitalized(parts[i]))
}

/// The TGFS review page's heading: the page size without a filter, the filters in
/// words when there are any, else the size range when it is narrowed.
pub open spec fn spec_tgfs_review_heading(
    has_any_filter: bool,
    parts: Seq<Seq<char>>,
    size_filter_active: bool,
    size_min: i64,
    size_max: i64,
    page_size: i64,
) -> Seq<char> {
    if !has_any_filter {
        "Review TGFS Files ("@ + text::int_decimal(page_size as int) + " random entries)"@
    } else if parts.len() > 0 {
        "Files: "@ + text::join_with(capitalized_all(parts), " + "@)
    } else if size_filter_active {
        "Review TGFS Files ("@ + text::int_decimal(size_min as int) + "\u{2013}"@ + text::int_decimal(
            size_max as int,
        ) + " MB)"@
    } else {
        "Review TGFS Files (filtered)"@
    }
}

/// The heading of the TGFS review page.
pub fn tgfs_review_heading(
    has_any_filter: bool,
    parts: &[String],
    size_filter_active: bool,
    size_min: i64,
    size_max: i64,
    page_size: i64,
) -> (h: String)
    ensures
        h@ == spec_tgfs_review_heading(
            has_any_filter,
            text::strings_view(parts@),
            size_filter_active,
            size_min,
            size_max,
            page_size,
        ),
{
    if !has_any_filter {
        let mut h = string_from("Review TGFS Files (");
        let n = i64_to_string(page_size);
        push_str(&mut h, n.as_str());
        push_str(&mut h, " random entries)");
        h
    } else if parts.len() > 0 {
        let mut caps: Vec<String> = Vec::new();
        let mut i: usize = 0;
        while i < parts.len()
            invariant
                i <= parts@.len(),
                text::strings_view(caps@) == capitalized_all(text::strings_view(parts@)).take(i as int),
            decreases parts@.len() - i,
        {
            let ghost before = caps@;
            caps.push(capitalize(parts[i].as_str()));
            proof {
                assert(text::strings_view(caps@) =~= text::strings_view(before).push(
                    capitalized(parts@[i as int]@),
                ));
                assert(capitalized_all(text::strings_view(parts@)).take(i + 1) =~= capitalized_all(
                    text::strings_view(parts@),
                ).take(i as int).push(capitalized(parts@[i as int]@)));
            }
            i = i + 1;
        }
        proof {
            assert(capitalized_all(text::strings_view(parts@)).take(parts@.len() as int)
                =~= capitalized_all(text::strings_view(parts@)));
        }
        let mut h = string_from("Files: ");
        let j = join_strings(caps.as_slice(), " + ");
        push_str(&mut h, j.as_str());
        h
    } else if size_filter_active {
        let mut h = string_from("Review TGFS Files (");
        let a = i64_to_string(size_min);
        push_str(&mut h, a.as_str());
        push_str(&mut h, "\u{2013}");
        let b = i64_to_string(size_max);
        push_str(&mut h, b.as_str());
        push_str(&mut h, " MB)");
        h
    } else {
        string_from("Review TGFS Files (filtered)")
    }
}

// ---------------------------------------------------------------------------
// Submitting decisions
// ---------------------------------------------------------------------------

/// What one submitted decision asks for.
#[derive(Clone, Copy, Debug, PartialEq, Eq, Structural)]
pub enum TgfsDecision {
    /// Delete the entry (and its blob once nothing links to it), warning its
    /// owner when `warn` is set.
    Delete { warn: bool },
    /// Mark the blob reviewed and public.
    Accept,
    /// Mark the blob reviewed and restricted.
    Reject,
    /// Anything else is skipped.
    Skip,
}

pub open spec fn spec_tgfs_decision(d: Seq<char>) -> TgfsDecision {
    if d == "delete"@ {
        TgfsDecision::Delete { warn: false }
    } else if d == "delete_warn"@ {
        TgfsDecision::Delete { warn: true }
    } else if d == "accept"@ {
        TgfsDecision::Accept
    } else if d == "reject"@ {
        TgfsDecision::Reject
    } else {
        TgfsDecision::Skip
    }
}

/// Reads a submitted decision.
pub fn tgfs_decision(d: &str) -> (r: TgfsDecision)
    ensures
        r == spec_tgfs_decision(d@),
{
    let v = chars_of(d);
    let del = chars_of("delete");
    let del_warn = chars_of("delete_warn");
    let acc = chars_of("accept");
    let rej = chars_of("reject");
    if text::chars_eq(v.as_slice(), del.as_slice()) {
        TgfsDecision::Delete { warn: false }
    } else if text::chars_eq(v.as_slice(), del_warn.as_slice()) {
        TgfsDecision::Delete { warn: true }
    } else if text::chars_eq(v.as_slice(), acc.as_slice()) {
        TgfsDecision::Accept
    } else if text::chars_eq(v.as_slice(), rej.as_slice()) {
        TgfsDecision::Reject
    } else {
        TgfsDecision::Skip
    }
}

/// The reply to a TGFS submission: how many files were processed, and how many
/// users were warned when any were.
pub open spec fn spec_tgfs_submit_message(accepted: i64, rejected: i64, deleted: i64, warned: i64) -> Seq<char> {
    "Processed "@ + text::int_decimal(accepted + rejected + deleted) + " files successfully!"@ + (if warned
        > 0 {
        " ("@ + text::int_decimal(warned as int) + " user"@ + (if warned == 1 {
            Seq::empty()
        } else {
            "s"@
        }) + " warned)"@
    } else {
        Seq::empty()
    })
}

/// The reply message of a TGFS submission.
pub fn tgfs_submit_message(accepted: i64, rejected: i64, deleted: i64, warned: i64) -> (m: String)
    requires
        0 <= accepted,
        0 <= rejected,
        0 <= deleted,
        accepted + rejected + deleted <= i64::MAX,
    ensures
        m@ == spec_tgfs_submit_message(accepted, rejected, deleted, warned),
{
    let mut m = string_from("Processed ");
    let n = i64_to_string(accepted + rejected + deleted);
    push_str(&mut m, n.as_str());
    push_str(&mut m, " files successfully!");
    if warned > 0 {
        push_str(&mut m, " (");
        let w = i64_to_string(warned);
        push_str(&mut m, w.as_str());
        push_str(&mut m, " user");
        if warned != 1 {
            push_str(&mut m, "s");
        }
        push_str(&mut m, " warned)");
    }
    m
}

/// What a TGFS submission has done so far: entries accepted, rejected and
/// deleted, and users warned.
#[derive(Clone, Copy, Debug, PartialEq, Eq)]
pub struct TgfsTally {
    pub accepted: i64,
    pub rejected: i64,
    pub deleted: i64,
    pub warned: i64,
}

/// A write of the submission loop that went through.
#[derive(Clone, Copy, Debug, PartialEq, Eq)]
pub enum TgfsSubmitEvent {
    /// The blob was marked reviewed, restricted or not.
    ReviewSaved { restricted: bool },
    /// The index entry was deleted.
    EntryDeleted,
    /// The owner's warning count was raised.
    OwnerWarned,
}

impl TgfsTally {
    /// No counter is negative.
    pub open spec fn wf(self) -> bool {
        &&& 0 <= self.accepted
        &&& 0 <= self.rejected
        &&& 0 <= self.deleted
        &&& 0 <= self.warned
    }

    /// The sum of the four counters.
    pub open spec fn all(self) -> int {
        self.accepted + self.rejected + self.deleted + self.warned
    }

    /// The tally after `e`: one more of what `e` reports.
    pub open spec fn after(self, e: TgfsSubmitEvent) -> TgfsTally {
        match e {
            TgfsSubmitEvent::ReviewSaved { restricted } => if restricted {
                TgfsTally { rejected: (self.rejected + 1) as i64, ..self }
            } else {
                TgfsTally { accepted: (self.accepted + 1) as i64, ..self }
            },
            TgfsSubmitEvent::EntryDeleted => TgfsTally { deleted: (self.deleted + 1) as i64, ..self },
            TgfsSubmitEvent::OwnerWarned => TgfsTally { warned: (self.warned + 1) as i64, ..self },
        }
    }

    /// A submission that has done nothing yet.
    pub fn new() -> (t: TgfsTally)
        ensures
            t == (TgfsTally { accepted: 0, rejected: 0, deleted: 0, warned: 0 }),
    {
        TgfsTally { accepted: 0, rejected: 0, deleted: 0, warned: 0 }
    }

    /// Counts a write that went through.
    pub fn record(&mut self, e: TgfsSubmitEvent)
        requires
            old(self).wf(),
            old(self).all() < i64::MAX,
        ensures
            *final(self) == old(self).after(e),
            final(self).wf(),
            final(self).all() == old(self).all() + 1,
    {
        match e {
            TgfsSubmitEvent::ReviewSaved { restricted } => {
                if restricted {
                    self.rejected = self.rejected + 1;
                } else {
                    self.accepted = self.accepted + 1;
                }
            },
            TgfsSubmitEvent::EntryDeleted => {
                self.deleted = self.deleted + 1;
            },
            TgfsSubmitEvent::OwnerWarned => {
                self.warned = self.warned + 1;
            },
        }
    }

    /// The reply message for the submission.
    pub fn message(&self) -> (m: String)
        requires
            self.wf(),
            self.all() <= i64::MAX,
        ensures
            m@ == spec_tgfs_submit_message(self.accepted, self.rejected, self.deleted, self.warned),
    {
        tgfs_submit_message(self.accepted, self.rejected, self.deleted, self.warned)
    }
}

/// Whether a deleted entry's blob can go: no index cluster still links to it,
/// given how many entries each cluster asked holds for the blob's file id.
pub fn blob_orphaned(reference_counts: &[u64]) -> (r: bool)
    ensures
        r == (forall|i: int| 0 <= i < reference_counts@.len() ==> reference_counts@[i] == 0),
{
    let mut i: usize = 0;
    while i < reference_counts.len()
        invariant
            i <= reference_counts@.len(),
            forall|j: int| 0 <= j < i ==> reference_counts@[j] == 0,
        decreases reference_counts@.len() - i,
    {
        if reference_counts[i] > 0 {
            return false;
        }
        i = i + 1;
    }
    true
}

/// The errors the TGFS search form reports, in order: an unreadable user id, bot
/// id, file id, and an invalid date range.
pub open spec fn spec_tgfs_filter_errors(
    invalid_user_id: bool,
    invalid_bot_id: bool,
    invalid_file_id: bool,
    invalid_date_range: bool,
) -> Seq<(Seq<char>, Seq<char>)> {
    (if invalid_user_id {
        seq![("error"@, "Invalid user ID. Please enter a valid number."@)]
    } else {
        Seq::empty()
    }) + (if invalid_bot_id {
        seq![("error"@, "Invalid bot ID. Please enter a valid number."@)]
    } else {
        Seq::empty()
    }) + (if invalid_file_id {
        seq![("error"@, "Invalid file ID. Please enter a valid number."@)]
    } else {
        Seq::empty()
    }) + (if invalid_date_range {
        seq![("error"@, "Invalid date range. Please use valid dates."@)]
    } else {
        Seq::empty()
    })
}

/// Appends the errors of a parsed TGFS search to `flashes`.
pub fn push_tgfs_filter_errors(flashes: &mut Vec<Flash>, parsed: &TgfsParsedFilters)
    ensures
        flashes_view(final(flashes)@) == flashes_view(old(flashes)@) + spec_tgfs_filter_errors(
            parsed.invalid_user_id,
            parsed.invalid_bot_id,
            parsed.invalid_file_id,
            parsed.invalid_date_range,
        ),
{
    let ghost before = flashes@;
    if parsed.invalid_user_id {
        flashes.push(error_flash("Invalid user ID. Please enter a valid number."));
    }
    if parsed.invalid_bot_id {
        flashes.push(error_flash("Invalid bot ID. Please enter a valid number."));
    }
    if parsed.invalid_file_id {
        flashes.push(error_flash("Invalid file ID. Please enter a valid number."));
    }
    if parsed.invalid_date_range {
        flashes.push(error_flash("Invalid date range. Please use valid dates."));
    }
    proof {
        assert(flashes_view(flashes@) =~= flashes_view(before) + spec_tgfs_filter_errors(
            parsed.invalid_user_id,
            parsed.invalid_bot_id,
            parsed.invalid_file_id,
            parsed.invalid_date_range,
        ));
    }
}


/// The bot of a search as its statistics show it: the bot id's absolute value, or
/// nothing.
pub open spec fn bot_text(actual_bot_id: Option<i64>) -> Seq<char> {
    match actual_bot_id {
        Some(v) => text::int_decimal(v as int),
        None => Seq::empty(),
    }
}

/// The bot id's absolute value as text, or an empty string.
pub fn bot_id_text(actual_bot_id: Option<i64>) -> (r: String)
    ensures
        r@ == bot_text(actual_bot_id),
{
    match actual_bot_id {
        Some(v) => i64_to_string(v),
        None => String::new(),
    }
}

/// The TGFS review page's statistics for a search, from the counts over its
/// candidates: pending is what is not reviewed, the counts are shown with
/// thousands separators, the rates in percent with one decimal, and the sessions
/// left at `page_size` files each.
pub fn tgfs_review_stats(
    parsed: &TgfsParsedFilters,
    total: i64,
    reviewed: i64,
    accepted: i64,
    rejected: i64,
    page_size: i64,
) -> (s: TgfsReviewStats)
    requires
        0 <= reviewed <= total,
        page_size >= 1,
    ensures
        s.search_user_id@ == crate::handlers::review::users_text(parsed.actual_user_ids@),
        s.search_bot_id@ == bot_text(parsed.actual_bot_id),
        s.search_file_name@ == parsed.search_file_name@,
        s.size_filter_active == parsed.size_filter_active,
        s.search_size_min == parsed.search_size_min,
        s.search_size_max == parsed.search_size_max,
        s.date_filter_active == parsed.date_filter_active,
        s.search_date_from@ == parsed.search_date_from@,
        s.search_date_to@ == parsed.search_date_to@,
        s.is_exclusion == parsed.is_exclusion,
        s.total_fmt@ == util::spec_commas(total as int),
        s.reviewed_fmt@ == util::spec_commas(reviewed as int),
        s.pending_fmt@ == util::spec_commas(total - reviewed),
        s.accepted_fmt@ == util::spec_commas(accepted as int),
        s.rejected_fmt@ == util::spec_commas(rejected as int),
        s.progress_pct_fmt@ == util::spec_fmt_pct1(reviewed, total),
        s.acceptance_rate_fmt@ == util::spec_fmt_pct1(accepted, reviewed),
        s.rejection_rate_fmt@ == util::spec_fmt_pct1(rejected, reviewed),
        s.sessions_left_fmt@ == crate::handlers::common::spec_sessions_left((total - reviewed) as i64, page_size),
{
    let pending = total - reviewed;
    TgfsReviewStats {
        search_user_id: join_ids(parsed.actual_user_ids.as_slice()),
        search_bot_id: bot_id_text(parsed.actual_bot_id),
        search_file_name: parsed.search_file_name.clone(),
        size_filter_active: parsed.size_filter_active,
        search_size_min: parsed.search_size_min,
        search_size_max: parsed.search_size_max,
        date_filter_active: parsed.date_filter_active,
        search_date_from: parsed.search_date_from.clone(),
        search_date_to: parsed.search_date_to.clone(),
        is_exclusion: parsed.is_exclusion,
        total_fmt: util::commas(total),
        reviewed_fmt: util::commas(reviewed),
        pending_fmt: util::commas(pending),
        accepted_fmt: util::commas(accepted),
        rejected_fmt: util::commas(rejected),
        progress_pct_fmt: util::fmt_pct1(reviewed, total),
        acceptance_rate_fmt: util::fmt_pct1(accepted, reviewed),
        rejection_rate_fmt: util::fmt_pct1(rejected, reviewed),
        sessions_left_fmt: crate::handlers::common::sessions_left(pending, page_size),
    }
}

} // verus!
