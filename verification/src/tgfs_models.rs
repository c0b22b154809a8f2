//! TGFS entries: their review-page ids and the view models of the TGFS pages.

use vstd::prelude::*;
use crate::object_id::{self, oid_parse_str, oid_to_hex};
use crate::models::{self, string_or, string_or_empty};
use crate::text::{
    self, chars_of, i64_to_string, parse_usize_chars, push_char, push_str, slice_to_vec,
    string_from, string_of, usize_to_string,
};
use crate::tgfs_token::{self, dl_url, watch_url};
use crate::util::{self, format_file_size};

verus! {

/// `encode_entry_id(cluster_idx, oid)`: `"{cluster_idx}:{hex}"`.
pub open spec fn spec_entry_id(cluster_idx: usize, oid: Seq<u8>) -> Seq<char> {
    text::nat_digits(cluster_idx as nat) + seq![':'] + object_id::hex_encode(oid)
}

/// `k` is the position of the first `c` in `s`.
pub open spec fn is_first_index(s: Seq<char>, c: char, k: int) -> bool {
    0 <= k < s.len() && s[k] == c && forall|i: int| 0 <= i < k ==> s[i] != c
}

/// `decode_entry_id(s)`: split at the first `:`, a `usize` before it and a 24-digit
/// hex object id after it.
pub open spec fn spec_decode_entry_id(s: Seq<char>) -> Option<(usize, Seq<u8>)> {
    if exists|k: int| is_first_index(s, ':', k) {
        let k = choose|k: int| is_first_index(s, ':', k);
        let rest = s.skip(k + 1);
        match text::parse_usize(s.take(k)) {
            Some(n) => if object_id::is_oid_text(rest) {
                Some((n, choose|b: Seq<u8>| #[trigger] object_id::hex_decodes_to(rest, b)))
            } else {
                None
            },
            None => None,
        }
    } else {
        None
    }
}

/// Encodes which index cluster an entry came from into its review-page identifier.
pub fn encode_entry_id(cluster_idx: usize, oid: [u8; 12]) -> (s: String)
    ensures
        s@ == spec_entry_id(cluster_idx, oid@),
{
    let mut s = usize_to_string(cluster_idx);
    push_char(&mut s, ':');
    let hex = oid_to_hex(oid);
    push_str(&mut s, hex.as_str());
    s
}

/// Inverse of [`encode_entry_id`].
pub fn decode_entry_id(s: &str) -> (r: Option<(usize, [u8; 12])>)
    ensures
        match r {
            Some((n, oid)) => spec_decode_entry_id(s@) == Some((n, oid@)),
            None => spec_decode_entry_id(s@) is None,
        },
{
    let v = chars_of(s);
    let mut k: usize = 0;
    while k < v.len() && v[k] != ':'
        invariant
            k <= v@.len(),
            forall|i: int| 0 <= i < k ==> v@[i] != ':',
        decreases v@.len() - k,
    {
        k = k + 1;
    }
    if k >= v.len() {
        proof {
            assert forall|j: int| !is_first_index(s@, ':', j) by {
                if 0 <= j < s@.len() && s@[j] == ':' {
                    assert(v@[j] != ':');
                }
            }
        }
        return None;
    }
    proof {
        assert(is_first_index(s@, ':', k as int));
        let j = choose|j: int| is_first_index(s@, ':', j);
        if j < k {
            assert(v@[j] != ':');
        }
        if k < j {
            assert(s@[k as int] != ':');
        }
        assert(j == k);
    }
    let head = slice_to_vec(v.as_slice(), 0, k);
    let n = match parse_usize_chars(head.as_slice()) {
        Some(n) => n,
        None => {
            return None;
        },
    };
    let tail = slice_to_vec(v.as_slice(), k + 1, v.len());
    let tail_s = string_of(tail.as_slice());
    proof {
        assert(head@ == s@.take(k as int));
        assert(tail@ == s@.skip(k + 1));
    }
    match oid_parse_str(tail_s.as_str()) {
        Ok(b) => {
            proof {
                let rest = s@.skip(k + 1);
                let c = choose|c: Seq<u8>| #[trigger] object_id::hex_decodes_to(rest, c);
                object_id::lemma_hex_decodes_unique(rest, c, b@);
            }
            Some((n, b))
        },
        Err(_) => None,
    }
}

/// Law: an entry id reads back as the cluster and object id it was built from.
pub proof fn lemma_entry_id_roundtrip(cluster_idx: usize, oid: Seq<u8>)
    requires
        oid.len() == 12,
    ensures
        spec_decode_entry_id(spec_entry_id(cluster_idx, oid)) == Some((cluster_idx, oid)),
{
    let ds = text::nat_digits(cluster_idx as nat);
    let h = object_id::hex_encode(oid);
    let s = spec_entry_id(cluster_idx, oid);
    text::lemma_nat_digits_value(cluster_idx as nat);
    text::lemma_parse_usize_nat_digits(cluster_idx);
    object_id::lemma_hex_roundtrip(oid);
    let k = ds.len() as int;
    assert(s[k] == ':');
    assert forall|i: int| 0 <= i < k implies s[i] != ':' by {
        assert(s[i] == ds[i]);
        assert(text::is_digit(ds[i]));
    }
    assert(is_first_index(s, ':', k));
    let j = choose|j: int| is_first_index(s, ':', j);
    if j < k {
        assert(s[j] == ds[j]);
        assert(text::is_digit(ds[j]));
    }
    if k < j {
        assert(s[k] != ':');
    }
    assert(j == k);
    assert(s.take(k) == ds);
    assert(s.skip(k + 1) == h);
    let c = choose|c: Seq<u8>| #[trigger] object_id::hex_decodes_to(h, c);
    object_id::lemma_hex_decodes_unique(h, c, oid);
}

} // verus!

verus! {

/// View model for one reviewable TGFS link (an index entry joined with its blob).
#[derive(Clone, Debug)]
pub struct TgfsFileCard {
    pub index: usize,
    /// `"{index_cluster}:{objectid_hex}"`, the decision key used by the submit endpoint.
    pub entry_id: String,
    pub file_id: i64,
    pub bot_id: String,
    pub user_id: String,
    pub file_name: String,
    pub file_size: String,
    pub mime_type: String,
    pub username: String,
    pub forward_name: String,
    pub forward_username: String,
    pub has_forward_info: bool,
    pub is_owner: bool,
    pub dl_url: String,
    pub watch_url: String,
    pub added_at: String,
    pub is_restricted: bool,
    pub reviewed_by: String,
    pub reviewed_at: String,
}

/// The fields of an index (`user_files`) document that a card shows, each read
/// leniently (a field of another type reads as missing).
#[derive(Clone, Debug)]
pub struct TgfsIndexDoc {
    /// The document's object id (a fresh one when it has none).
    pub oid: [u8; 12],
    pub user_id: Option<i64>,
    pub bot_id: Option<i64>,
    pub file_id: Option<i64>,
    pub username: Option<String>,
    pub forward_name: Option<String>,
    pub forward_username: Option<String>,
    pub file_name: Option<String>,
    pub file_size: Option<i64>,
    /// `added_at` rendered as an IST date-time, when it is a date.
    pub added_at: Option<String>,
    /// The blob cluster the file lives in (`cluster`), when numeric.
    pub cluster: Option<i64>,
}

/// The fields of a blob (`files`) document used by the TGFS pages.
#[derive(Clone, Debug)]
pub struct TgfsBlobDoc {
    pub file_name: Option<String>,
    pub size: Option<i64>,
    pub mime_type: Option<String>,
    pub is_owner: Option<bool>,
    pub is_restricted: Option<bool>,
    pub reviewed_by: Option<String>,
    /// `reviewed_at` rendered as an IST date-time when it is a date, or its text when
    /// it is a string.
    pub reviewed_at: Option<String>,
    /// Whether the document has a `reviewed_at` field at all.
    pub has_reviewed_at: bool,
    /// `reviewed_at` in unix milliseconds, when it is a date.
    pub reviewed_at_millis: Option<i64>,
}

pub open spec fn i64_or(o: Option<i64>, d: i64) -> i64 {
    match o {
        Some(v) => v,
        None => d,
    }
}

pub open spec fn bool_of(o: Option<bool>) -> bool {
    o == Some(true)
}

/// `TgfsFileCard::from_docs`: every field of the card of an index document joined with
/// its (possibly missing) blob document.
pub open spec fn tgfs_card_ok(
    card: TgfsFileCard,
    index_doc: TgfsIndexDoc,
    blob_doc: Option<TgfsBlobDoc>,
    cluster_idx: usize,
    index: usize,
    secret: Seq<u8>,
    public_url: Seq<char>,
) -> bool {
    let user_id = i64_or(index_doc.user_id, 0);
    let file_id = i64_or(index_doc.file_id, 0);
    let file_name = match index_doc.file_name {
        Some(n) => n@,
        None => match blob_doc {
            Some(b) => models::str_or(b.file_name, "Unknown"@),
            None => "Unknown"@,
        },
    };
    let size = match index_doc.file_size {
        Some(v) => v,
        None => match blob_doc {
            Some(b) => i64_or(b.size, 0),
            None => 0,
        },
    };
    &&& card.index == index
    &&& card.entry_id@ == spec_entry_id(cluster_idx, index_doc.oid@)
    &&& card.file_id == file_id
    &&& card.bot_id@ == text::int_decimal(i64_or(index_doc.bot_id, 0) as int)
    &&& card.user_id@ == text::int_decimal(user_id as int)
    &&& card.file_name@ == file_name
    &&& card.file_size@ == util::spec_format_file_size(size as int)
    &&& card.mime_type@ == match blob_doc {
        Some(b) => models::str_or(b.mime_type, "Unknown"@),
        None => "Unknown"@,
    }
    &&& card.username@ == models::str_or(index_doc.username, Seq::empty())
    &&& card.forward_name@ == models::str_or(index_doc.forward_name, Seq::empty())
    &&& card.forward_username@ == models::str_or(index_doc.forward_username, Seq::empty())
    &&& card.has_forward_info == (card.username@.len() > 0 || card.forward_name@.len() > 0
        || card.forward_username@.len() > 0)
    &&& card.is_owner == (blob_doc matches Some(b) && bool_of(b.is_owner))
    &&& card.is_restricted == (blob_doc matches Some(b) && bool_of(b.is_restricted))
    &&& card.reviewed_by@ == match blob_doc {
        Some(b) => models::str_or(b.reviewed_by, Seq::empty()),
        None => Seq::empty(),
    }
    &&& card.reviewed_at@ == match blob_doc {
        Some(b) => models::str_or(b.reviewed_at, Seq::empty()),
        None => Seq::empty(),
    }
    &&& card.added_at@ == models::str_or(index_doc.added_at, "N/A"@)
    &&& card.dl_url@ == tgfs_token::spec_link(public_url, tgfs_token::dl_route(), secret, user_id, file_id)
    &&& card.watch_url@ == tgfs_token::spec_link(public_url, tgfs_token::wt_route(), secret, user_id, file_id)
}

/// Law: a card shows the name its index entry gives the file, whatever the blob
/// holds; the blob's name only stands in when the index entry has none, and
/// `Unknown` when neither has one. Two cards of the same index entry that has a
/// name thus show the same name, whichever blobs they were joined with.
pub proof fn lemma_card_file_name(
    card: TgfsFileCard,
    index_doc: TgfsIndexDoc,
    blob_doc: Option<TgfsBlobDoc>,
    cluster_idx: usize,
    index: usize,
    secret: Seq<u8>,
    public_url: Seq<char>,
)
    requires
        tgfs_card_ok(card, index_doc, blob_doc, cluster_idx, index, secret, public_url),
    ensures
        index_doc.file_name matches Some(n) ==> card.file_name@ == n@,
        index_doc.file_name is None ==> (blob_doc matches Some(b) ==> (b.file_name matches Some(m)
            ==> card.file_name@ == m@)),
        index_doc.file_name is None && !(blob_doc matches Some(b) && b.file_name is Some)
            ==> card.file_name@ == "Unknown"@,
{
}

impl TgfsFileCard {
    /// Builds a card from an index document plus its (possibly missing, e.g. if
    /// orphaned) blob document.
    pub fn from_docs(
        index_doc: &TgfsIndexDoc,
        blob_doc: Option<&TgfsBlobDoc>,
        cluster_idx: usize,
        index: usize,
        secret: &[u8],
        public_url: &str,
    ) -> (card: TgfsFileCard)
        ensures
            tgfs_card_ok(
                card,
                *index_doc,
                match blob_doc {
                    Some(b) => Some(*b),
                    None => None,
                },
                cluster_idx,
                index,
                secret@,
                public_url@,
            ),
    {
        let entry_id = encode_entry_id(cluster_idx, index_doc.oid);
        let user_id = match index_doc.user_id {
            Some(v) => v,
            None => 0,
        };
        let bot_id = match index_doc.bot_id {
            Some(v) => v,
            None => 0,
        };
        let file_id = match index_doc.file_id {
            Some(v) => v,
            None => 0,
        };
        let username = string_or_empty(&index_doc.username);
        let forward_name = string_or_empty(&index_doc.forward_name);
        let forward_username = string_or_empty(&index_doc.forward_username);
        let has_forward_info = !username.as_str().is_empty() || !forward_name.as_str().is_empty()
            || !forward_username.as_str().is_empty();
        let file_name = match &index_doc.file_name {
            Some(n) => n.clone(),
            None => match blob_doc {
                Some(b) => string_or(&b.file_name, "Unknown"),
                None => string_from("Unknown"),
            },
        };
        let size = match index_doc.file_size {
            Some(v) => v,
            None => match blob_doc {
                Some(b) => match b.size {
                    Some(v) => v,
                    None => 0,
                },
                None => 0,
            },
        };
        let mime_type = match blob_doc {
            Some(b) => string_or(&b.mime_type, "Unknown"),
            None => string_from("Unknown"),
        };
        let is_owner = match blob_doc {
            Some(b) => b.is_owner == Some(true),
            None => false,
        };
        let is_restricted = match blob_doc {
            Some(b) => b.is_restricted == Some(true),
            None => false,
        };
        let reviewed_by = match blob_doc {
            Some(b) => string_or_empty(&b.reviewed_by),
            None => String::new(),
        };
        let reviewed_at = match blob_doc {
            Some(b) => string_or_empty(&b.reviewed_at),
            None => String::new(),
        };
        let added_at = string_or(&index_doc.added_at, "N/A");
        TgfsFileCard {
            index,
            entry_id,
            file_id,
            bot_id: i64_to_string(bot_id),
            user_id: i64_to_string(user_id),
            file_name,
            file_size: format_file_size(size),
            mime_type,
            username,
            forward_name,
            forward_username,
            has_forward_info,
            is_owner,
            dl_url: dl_url(public_url, secret, user_id, file_id),
            watch_url: watch_url(public_url, secret, user_id, file_id),
            added_at,
            is_restricted,
            reviewed_by,
            reviewed_at,
        }
    }
}

/// Combined search statistics shown in the TGFS review page's right sidebar.
#[derive(Clone, Debug)]
pub struct TgfsReviewStats {
    pub search_user_id: String,
    pub search_bot_id: String,
    pub search_file_name: String,
    pub size_filter_active: bool,
    pub search_size_min: i64,
    pub search_size_max: i64,
    pub date_filter_active: bool,
    pub search_date_from: String,
    pub search_date_to: String,
    pub is_exclusion: bool,
    pub total_fmt: String,
    pub reviewed_fmt: String,
    pub pending_fmt: String,
    pub accepted_fmt: String,
    pub rejected_fmt: String,
    pub progress_pct_fmt: String,
    pub acceptance_rate_fmt: String,
    pub rejection_rate_fmt: String,
    pub sessions_left_fmt: String,
}

/// Combined search statistics shown in the TGFS done page's right sidebar.
#[derive(Clone, Debug)]
pub struct TgfsDoneStats {
    pub search_user_id: String,
    pub search_bot_id: String,
    pub search_file_name: String,
    pub search_reviewed_by: String,
    pub size_filter_active: bool,
    pub search_size_min: i64,
    pub search_size_max: i64,
    pub date_filter_active: bool,
    pub search_date_from: String,
    pub search_date_to: String,
    pub is_exclusion: bool,
    pub total_fmt: String,
    pub accepted_fmt: String,
    pub rejected_fmt: String,
    pub acceptance_rate_fmt: String,
    pub rejection_rate_fmt: String,
}

/// One row of the TGFS stats page's per-bot breakdown table.
#[derive(Clone, Debug)]
pub struct TgfsBotBreakdown {
    pub bot_id: String,
    pub count_fmt: String,
}

} // verus!
