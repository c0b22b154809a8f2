//! View models shown on the PLGB review/done/stats pages.

use vstd::prelude::*;
use crate::object_id::{self, oid_to_hex};
use crate::text::{self, chars_of, i64_to_string, push_str, string_from, trimmed_string};
use crate::util::{self, format_file_size};

verus! {

/// A string field's value, or `default` when the document lacks it.
pub open spec fn str_or(o: Option<String>, default: Seq<char>) -> Seq<char> {
    match o {
        Some(s) => s@,
        None => default,
    }
}

/// Copies a string field, `default` when missing.
pub fn string_or(o: &Option<String>, default: &str) -> (r: String)
    ensures
        r@ == str_or(*o, default@),
{
    match o {
        Some(s) => s.clone(),
        None => string_from(default),
    }
}

/// Copies a string field, empty when missing.
pub fn string_or_empty(o: &Option<String>) -> (r: String)
    ensures
        r@ == str_or(*o, Seq::empty()),
{
    match o {
        Some(s) => s.clone(),
        None => String::new(),
    }
}

/// `s` with every trailing `c` removed (`trim_end_matches(c)`).
pub open spec fn trim_end_char(s: Seq<char>, c: char) -> Seq<char>
    decreases s.len(),
{
    if s.len() > 0 && s.last() == c {
        trim_end_char(s.drop_last(), c)
    } else {
        s
    }
}

/// `s.trim().trim_end_matches(c)`.
pub fn trim_and_strip_end(s: &str, c: char) -> (r: String)
    ensures
        r@ == trim_end_char(text::trim(s@), c),
{
    let t = trimmed_string(s);
    let v = chars_of(t.as_str());
    let mut k = v.len();
    proof {
        assert(v@.take(k as int) == v@);
    }
    while k > 0 && v[k - 1] == c
        invariant
            k <= v@.len(),
            trim_end_char(v@, c) == trim_end_char(v@.take(k as int), c),
        decreases k,
    {
        proof {
            assert(v@.take(k as int).drop_last() == v@.take(k - 1));
            assert(v@.take(k as int).last() == c);
        }
        k = k - 1;
    }
    proof {
        assert(v@.take(k as int) == v@.subrange(0, k as int));
    }
    let w = text::slice_to_vec(v.as_slice(), 0, k);
    text::string_of(w.as_slice())
}

/// The fields of a PLGB `file` document that its card shows, each read leniently
/// (a field of another type reads as missing).
#[derive(Clone, Debug)]
pub struct PlgbFileDoc {
    pub id: Option<[u8; 12]>,
    pub user_id: Option<i64>,
    pub file_name: Option<String>,
    pub file_size: Option<i64>,
    pub mime_type: Option<String>,
    pub username: Option<String>,
    pub forward_first_name: Option<String>,
    pub forward_username: Option<String>,
    pub forward_chat_title: Option<String>,
    pub forward_chat_username: Option<String>,
    pub is_public: Option<bool>,
    pub special_type: Option<String>,
    pub reviewed_by: Option<String>,
    /// The numeric `reviewed_at` rendered as an IST date-time, when present.
    pub reviewed_at: Option<String>,
}

/// A single flash message rendered once at the top of a page.
#[derive(Clone, Debug)]
pub struct Flash {
    pub category: String,
    pub message: String,
}

/// View model for one file card shown on the review/done pages.
#[derive(Clone, Debug)]
pub struct FileCard {
    pub index: usize,
    pub id: String,
    pub user_id: String,
    pub file_name: String,
    pub file_size: String,
    pub mime_type: String,
    pub username: String,
    pub forward_first_name: String,
    pub forward_username: String,
    pub forward_chat_title: String,
    pub forward_chat_username: String,
    pub has_forward_info: bool,
    pub dl_url: String,
    pub watch_url: String,
    pub is_public: bool,
    pub special_type: String,
    pub reviewed_by: String,
    pub reviewed_at: String,
}

/// The hex id of a card (empty when the document has no object id).
pub open spec fn card_id(id: Option<[u8; 12]>) -> Seq<char> {
    match id {
        Some(b) => object_id::hex_encode(b@),
        None => Seq::empty(),
    }
}

/// `https://{host}{route}{id}/{file_name}`.
pub open spec fn file_link(host: Seq<char>, route: Seq<char>, id: Seq<char>, file_name: Seq<char>) -> Seq<char> {
    "https://"@ + host + route + id + "/"@ + file_name
}

/// `FileCard::from_doc`: every field of the card built from a document.
pub open spec fn file_card_ok(card: FileCard, doc: PlgbFileDoc, index: usize, fqdn: Seq<char>) -> bool {
    let id = card_id(doc.id);
    let host = trim_end_char(text::trim(fqdn), '/');
    let file_name = str_or(doc.file_name, "Unknown"@);
    &&& card.index == index
    &&& card.id@ == id
    &&& card.user_id@ == match doc.user_id {
        Some(v) => text::int_decimal(v as int),
        None => "N/A"@,
    }
    &&& card.file_name@ == file_name
    &&& card.file_size@ == util::spec_format_file_size(
        match doc.file_size {
            Some(v) => v as int,
            None => 0,
        },
    )
    &&& card.mime_type@ == str_or(doc.mime_type, "Unknown"@)
    &&& card.username@ == str_or(doc.username, Seq::empty())
    &&& card.forward_first_name@ == str_or(doc.forward_first_name, Seq::empty())
    &&& card.forward_username@ == str_or(doc.forward_username, Seq::empty())
    &&& card.forward_chat_title@ == str_or(doc.forward_chat_title, Seq::empty())
    &&& card.forward_chat_username@ == str_or(doc.forward_chat_username, Seq::empty())
    &&& card.has_forward_info == (card.username@.len() > 0 || card.forward_first_name@.len() > 0
        || card.forward_username@.len() > 0 || card.forward_chat_title@.len() > 0
        || card.forward_chat_username@.len() > 0)
    &&& card.dl_url@ == file_link(host, "/dl/"@, id, file_name)
    &&& card.watch_url@ == file_link(host, "/watch/"@, id, file_name)
    &&& card.is_public == (doc.is_public == Some(true))
    &&& card.special_type@ == str_or(doc.special_type, Seq::empty())
    &&& card.reviewed_by@ == str_or(doc.reviewed_by, Seq::empty())
    &&& card.reviewed_at@ == str_or(doc.reviewed_at, Seq::empty())
}

fn build_file_link(host: &str, route: &str, id: &str, file_name: &str) -> (r: String)
    ensures
        r@ == file_link(host@, route@, id@, file_name@),
{
    let mut r = string_from("https://");
    push_str(&mut r, host);
    push_str(&mut r, route);
    push_str(&mut r, id);
    push_str(&mut r, "/");
    push_str(&mut r, file_name);
    r
}

impl FileCard {
    /// Builds the card of one document; `fqdn` is the host the dl/watch links point at.
    pub fn from_doc(doc: &PlgbFileDoc, index: usize, fqdn: &str) -> (card: FileCard)
        ensures
            file_card_ok(card, *doc, index, fqdn@),
    {
        let id = match doc.id {
            Some(b) => oid_to_hex(b),
            None => String::new(),
        };
        let username = string_or_empty(&doc.username);
        let forward_first_name = string_or_empty(&doc.forward_first_name);
        let forward_username = string_or_empty(&doc.forward_username);
        let forward_chat_title = string_or_empty(&doc.forward_chat_title);
        let forward_chat_username = string_or_empty(&doc.forward_chat_username);
        let has_forward_info = !username.as_str().is_empty() || !forward_first_name.as_str().is_empty()
            || !forward_username.as_str().is_empty() || !forward_chat_title.as_str().is_empty()
            || !forward_chat_username.as_str().is_empty();
        let reviewed_at = string_or_empty(&doc.reviewed_at);
        let file_name = string_or(&doc.file_name, "Unknown");
        let host = trim_and_strip_end(fqdn, '/');
        let dl_url = build_file_link(host.as_str(), "/dl/", id.as_str(), file_name.as_str());
        let watch_url = build_file_link(host.as_str(), "/watch/", id.as_str(), file_name.as_str());
        let user_id = match doc.user_id {
            Some(v) => i64_to_string(v),
            None => string_from("N/A"),
        };
        let size = match doc.file_size {
            Some(v) => v,
            None => 0,
        };
        FileCard {
            index,
            id,
            user_id,
            file_name,
            file_size: format_file_size(size),
            mime_type: string_or(&doc.mime_type, "Unknown"),
            username,
            forward_first_name,
            forward_username,
            forward_chat_title,
            forward_chat_username,
            has_forward_info,
            dl_url,
            watch_url,
            is_public: match doc.is_public {
                Some(b) => b,
                None => false,
            },
            special_type: string_or_empty(&doc.special_type),
            reviewed_by: string_or_empty(&doc.reviewed_by),
            reviewed_at,
        }
    }
}

/// Combined search statistics shown in the review page's right sidebar.
#[derive(Clone, Debug)]
pub struct ReviewStats {
    pub search_user_id: String,
    pub search_file_name: String,
    pub size_filter_active: bool,
    pub search_size_min: i64,
    pub search_size_max: i64,
    pub is_exclusion: bool,
    pub total_fmt: String,
    pub reviewed_fmt: String,
    pub pending_fmt: String,
    pub accepted_fmt: String,
    pub rejected_fmt: String,
    pub excluded_count_fmt: String,
    pub has_excluded_count: bool,
    pub progress_pct_fmt: String,
    pub acceptance_rate_fmt: String,
    pub rejection_rate_fmt: String,
    pub sessions_left_fmt: String,
}

/// Combined search statistics shown in the done page's right sidebar.
#[derive(Clone, Debug)]
pub struct DoneStats {
    pub search_user_id: String,
    pub search_file_name: String,
    pub search_reviewed_by: String,
    pub size_filter_active: bool,
    pub search_size_min: i64,
    pub search_size_max: i64,
    pub is_exclusion: bool,
    pub total_fmt: String,
    pub accepted_fmt: String,
    pub rejected_fmt: String,
    pub acceptance_rate_fmt: String,
    pub rejection_rate_fmt: String,
}

/// Stats block for one account, used on the stats dashboard.
#[derive(Clone, Debug)]
pub struct ReviewerStats {
    pub total_reviewed_fmt: String,
    pub accepted_fmt: String,
    pub rejected_fmt: String,
    pub acceptance_rate_fmt: String,
    pub contribution_fmt: String,
}

} // verus!
