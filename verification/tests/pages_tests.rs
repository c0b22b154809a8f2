use link_review::handlers::done::done_stats;
use link_review::handlers::review::review_stats;
use link_review::handlers::stats::reviewer_stats;
use link_review::handlers::tgfs_done::tgfs_done_stats;
use link_review::handlers::tgfs_review::tgfs_review_stats;
use link_review::query_filters::{parse_filters, RawFilterInput};
use link_review::tgfs_query_filters::{parse_tgfs_filters, TgfsRawFilterInput};
use link_review::handlers::common::{new_file_name, page_count, page_number, sessions_left};
use link_review::handlers::done::{build_done_url, done_conditions, done_heading, done_page_links, DoneSearch};
use link_review::handlers::review::{
    excluded_count_conditions, excluded_users, plgb_update, review_submit_message,
};
use link_review::handlers::stats::{bar_scale, diff_class, ratio_str};
use link_review::handlers::tgfs_done::{
    blob_passes_lowered, build_tgfs_done_url, count_accepted, page_bounds, select_reviewed, sort_by_review_time,
    tgfs_done_cards, tgfs_done_heading, tgfs_done_order,
};
use link_review::handlers::tgfs_review::{
    blob_orphaned, capitalize, capitalize_with, tgfs_decision, tgfs_empty_message, tgfs_review_counts,
    tgfs_review_heading, tgfs_submit_message, TgfsDecision, TgfsSubmitEvent, TgfsTally,
};
use link_review::handlers::tgfs_stats::{bot_breakdown_rows, merge_bot_counts};
use link_review::query_filters::Condition;
use link_review::tgfs_models::{TgfsBlobDoc, TgfsIndexDoc};
use std::collections::HashMap;

fn index_doc(n: u8, file_id: Option<i64>) -> TgfsIndexDoc {
    TgfsIndexDoc {
        oid: [n; 12],
        user_id: Some(100 + n as i64),
        bot_id: Some(7),
        file_id,
        username: None,
        forward_name: None,
        forward_username: None,
        file_name: Some(format!("file{n}.mp4")),
        file_size: Some(2048),
        added_at: None,
        cluster: Some(0),
    }
}

fn blob(reviewed: bool, restricted: Option<bool>, by: &str, millis: Option<i64>) -> TgfsBlobDoc {
    TgfsBlobDoc {
        file_name: None,
        size: None,
        mime_type: Some("video/mp4".to_string()),
        is_owner: Some(false),
        is_restricted: restricted,
        reviewed_by: Some(by.to_string()),
        reviewed_at: if reviewed { Some("2024-01-01 10:00 IST".to_string()) } else { None },
        has_reviewed_at: reviewed,
        reviewed_at_millis: millis,
    }
}

fn sample_join() -> (Vec<(usize, TgfsIndexDoc)>, HashMap<i64, TgfsBlobDoc>) {
    let cands = vec![
        (0, index_doc(1, Some(11))),
        (1, index_doc(2, Some(12))),
        (0, index_doc(3, Some(13))),
        (0, index_doc(4, None)),
        (1, index_doc(5, Some(15))),
        (0, index_doc(6, Some(16))),
    ];
    let mut blobs = HashMap::new();
    blobs.insert(11, blob(true, Some(false), "Nik", Some(5000)));
    blobs.insert(12, blob(true, Some(true), "prdp", Some(9000)));
    blobs.insert(13, blob(false, None, "", None));
    blobs.insert(15, blob(true, None, "nikhil", Some(5000)));
    blobs.insert(16, blob(true, Some(false), "PRDP", None));
    (cands, blobs)
}

#[test]
fn page_number_and_count() {
    assert_eq!(page_number(" 3 ", 5), 3);
    assert_eq!(page_number("0", 5), 1);
    assert_eq!(page_number("99", 5), 5);
    assert_eq!(page_number("x", 5), 1);
    assert_eq!(page_count(0, 10), 1);
    assert_eq!(page_count(10, 10), 1);
    assert_eq!(page_count(11, 10), 2);
}

#[test]
fn sessions_left_rounds_half_up() {
    assert_eq!(sessions_left(0, 10), "0");
    assert_eq!(sessions_left(-3, 10), "0");
    assert_eq!(sessions_left(4, 10), "0+");
    assert_eq!(sessions_left(5, 10), "1+");
    assert_eq!(sessions_left(15, 10), "2+");
    assert_eq!(sessions_left(25, 10), "3+");
    assert_eq!(sessions_left(37, 25), "1+");
    for p in 1..5000i64 {
        for q in [5i64, 10, 25, 50, 100] {
            let float = format!("{}+", (p as f64 / q as f64).round() as i64);
            assert_eq!(sessions_left(p, q), float);
        }
    }
    let mut x: u64 = 0x9E37_79B9_7F4A_7C15;
    let mut samples = vec![(i64::MAX, 1i64), (i64::MAX, 3), ((1 << 53) + 1, 2), ((1 << 54) + 2, 4), (i64::MAX, i64::MAX)];
    for _ in 0..30000 {
        x ^= x << 13;
        x ^= x >> 7;
        x ^= x << 17;
        let p = ((x >> (x % 64)) as i64).max(1);
        x ^= x << 13;
        x ^= x >> 7;
        x ^= x << 17;
        let q = ((x >> (x % 64)) as i64).max(1);
        samples.push((p, q));
        samples.push((p, (q % 100) + 1));
    }
    for (p, q) in samples {
        let float = format!("{}+", (p as f64 / q as f64).round() as i64);
        assert_eq!(sessions_left(p, q), float, "p = {p}, q = {q}");
    }
}

#[test]
fn new_file_names() {
    assert_eq!(new_file_name(Some("  a.mp4 ")), Some("a.mp4".to_string()));
    assert_eq!(new_file_name(Some("   ")), None);
    assert_eq!(new_file_name(None), None);
}

#[test]
fn done_url_and_heading() {
    assert_eq!(
        build_done_url(2, "12", "", "", "nik", "accepted", 0, 4200, ""),
        "/link-review/done?page=2&user_id=12&reviewed_by=nik&status=accepted&size_min=0&size_max=4200"
    );
    assert_eq!(
        build_done_url(1, "", "a b&c", "", "", "", 5, 10, "650abcdef0123456789abcde"),
        "/link-review/done?page=1&file_name=a%20b%26c&size_min=5&size_max=10&id=650abcdef0123456789abcde"
    );
    assert_eq!(done_heading(false, "1", "x"), "\u{2705} Reviewed Files (10 random)");
    assert_eq!(done_heading(true, "12", "cat"), "\u{2705} Reviewed Files \u{2013} User 12 + \"cat\"");
    assert_eq!(done_heading(true, "", ""), "\u{2705} Reviewed Files");
}

#[test]
fn done_links() {
    let s = DoneSearch {
        search_user_id: "",
        search_file_name: "",
        search_forward_from: "",
        search_reviewed_by: "",
        search_status: "",
        size_min: 0,
        size_max: 4200,
        search_id: "",
    };
    let links = done_page_links(3, 2, &s);
    assert_eq!(links.len(), 3);
    assert_eq!(links[1].number, 2);
    assert!(links[1].active && !links[0].active);
    assert_eq!(links[2].href, "/link-review/done?page=3&size_min=0&size_max=4200");
}

#[test]
fn done_query_conditions() {
    let form = vec![Condition::UserIdEq(5)];
    let cs = done_conditions(&form, "nik", "rejected");
    assert_eq!(cs.len(), 4);
    assert!(matches!(cs[0], Condition::IsReviewed));
    assert!(matches!(cs[1], Condition::UserIdEq(5)));
    assert!(matches!(cs[2], Condition::ReviewedByMatches(ref p) if p == "nik"));
    assert!(matches!(cs[3], Condition::IsPublic(false)));
    let cs = done_conditions(&[], "", "other");
    assert_eq!(cs.len(), 1);
}

#[test]
fn tgfs_done_url_and_heading() {
    assert_eq!(
        build_tgfs_done_url(1, "", "-5", "", "", "", "", 0, 4200, "", "2024-01-01", "", 25),
        "/link-review/done-tgfs?page=1&bot_id=-5&size_min=0&size_max=4200&date_from=2024-01-01&page_size=25"
    );
    assert_eq!(tgfs_done_heading(false, "", "", "", 25), "\u{2705} Reviewed TGFS Files (most recent 25)");
    assert_eq!(
        tgfs_done_heading(true, "1", "2", "x", 25),
        "\u{2705} Reviewed TGFS Files \u{2013} User 1 \u{2013} Bot 2 + \"x\""
    );
}

#[test]
fn tgfs_done_selection_filters_and_orders() {
    let (cands, blobs) = sample_join();
    let all = select_reviewed(&cands, &blobs, "", "");
    assert_eq!(all, vec![(5000, 0), (9000, 1), (5000, 4), (0, 5)]);
    let accepted = select_reviewed(&cands, &blobs, "accepted", "");
    assert_eq!(accepted, vec![(5000, 0), (5000, 4), (0, 5)]);
    let rejected = select_reviewed(&cands, &blobs, "rejected", "");
    assert_eq!(rejected, vec![(9000, 1)]);
    let by_nik = select_reviewed(&cands, &blobs, "", "NIK");
    assert_eq!(by_nik, vec![(5000, 0), (5000, 4)]);
    let sorted = sort_by_review_time(&all);
    assert_eq!(sorted, vec![(9000, 1), (5000, 0), (5000, 4), (0, 5)]);
    assert_eq!(tgfs_done_order(&cands, &blobs, "", ""), sorted);
    assert_eq!(count_accepted(&cands, &blobs, &sorted), 3);
}

#[test]
fn tgfs_done_page_cards() {
    let (cands, blobs) = sample_join();
    let order = tgfs_done_order(&cands, &blobs, "", "");
    assert_eq!(page_bounds(1, 5, 4), (0, 4));
    assert_eq!(page_bounds(2, 5, 4), (5, 5));
    assert_eq!(page_bounds(2, 3, 4), (3, 4));
    let cards = tgfs_done_cards(&cands, &blobs, &order, 1, 3, b"k", "https://t");
    assert_eq!(cards.len(), 2);
    assert_eq!(cards[0].index, 2);
    assert_eq!(cards[0].file_name, "file1.mp4");
    assert_eq!(cards[0].reviewed_by, "Nik");
    assert_eq!(cards[1].index, 3);
    assert_eq!(cards[1].file_name, "file5.mp4");
    assert!(!cards[1].is_restricted);
}

#[test]
fn tgfs_review_counts_and_texts() {
    let (cands, blobs) = sample_join();
    assert_eq!(tgfs_review_counts(&cands, &blobs), (4, 3, 1));
    let parts = vec!["user 5".to_string(), "excluding bot 9".to_string(), "matching \"x\"".to_string()];
    assert_eq!(
        tgfs_empty_message(&parts, true),
        "No pending files found for user 5, excluding bot 9, matching \"x\""
    );
    assert_eq!(tgfs_empty_message(&[], true), "No pending files found matching your filters");
    assert_eq!(tgfs_empty_message(&[], false), "No files pending review!");
    assert_eq!(
        tgfs_review_heading(true, &parts, false, 0, 4200, 10),
        "Files: User 5 + Excluding bot 9 + Matching \"x\""
    );
    assert_eq!(tgfs_review_heading(false, &parts, false, 0, 4200, 10), "Review TGFS Files (10 random entries)");
    assert_eq!(tgfs_review_heading(true, &[], true, 5, 10, 10), "Review TGFS Files (5\u{2013}10 MB)");
    assert_eq!(tgfs_review_heading(true, &[], false, 0, 4200, 10), "Review TGFS Files (filtered)");
    assert_eq!(capitalize("ünïcode"), "Ünïcode");
    assert_eq!(capitalize(""), "");
}

#[test]
fn tgfs_submit_decisions_and_message() {
    assert_eq!(tgfs_decision("delete"), TgfsDecision::Delete { warn: false });
    assert_eq!(tgfs_decision("delete_warn"), TgfsDecision::Delete { warn: true });
    assert_eq!(tgfs_decision("accept"), TgfsDecision::Accept);
    assert_eq!(tgfs_decision("reject"), TgfsDecision::Reject);
    assert_eq!(tgfs_decision("Accept"), TgfsDecision::Skip);
    assert_eq!(tgfs_submit_message(2, 1, 3, 0), "Processed 6 files successfully!");
    assert_eq!(tgfs_submit_message(0, 0, 1, 1), "Processed 1 files successfully! (1 user warned)");
    assert_eq!(tgfs_submit_message(0, 0, 2, 2), "Processed 2 files successfully! (2 users warned)");
}

#[test]
fn plgb_submit_updates() {
    let u = plgb_update("650abcdef0123456789abcde", "accept", Some(" new.mkv "), Some(true)).unwrap();
    assert!(u.is_public);
    assert_eq!(u.file_name, Some("new.mkv".to_string()));
    assert!(u.special_type);
    assert_eq!(u.oid[0], 0x65);
    let u = plgb_update("650abcdef0123456789abcde", "reject", None, None).unwrap();
    assert!(!u.is_public && u.file_name.is_none() && !u.special_type);
    let u = plgb_update("650abcdef0123456789abcde", "whatever", Some(" "), Some(false)).unwrap();
    assert!(!u.is_public && u.file_name.is_none());
    assert!(plgb_update("not-an-id", "accept", None, None).is_none());
    assert_eq!(review_submit_message(3, 4), "Updated 7 files successfully!");
}

#[test]
fn excluded_users_text_and_conditions() {
    assert_eq!(excluded_users(&[]), "0");
    assert_eq!(excluded_users(&[5, 6]), "5, 6");
    let cs = excluded_count_conditions(true, &[5]).unwrap();
    assert!(matches!(cs[0], Condition::UserIdIn(ref v) if *v == vec![5]));
    assert!(matches!(cs[1], Condition::IsPending));
    assert!(excluded_count_conditions(false, &[5]).is_none());
    assert!(excluded_count_conditions(true, &[]).is_none());
}

#[test]
fn stats_helpers() {
    assert_eq!(diff_class(5, 3), "positive");
    assert_eq!(diff_class(3, 5), "negative");
    assert_eq!(diff_class(4, 4), "");
    assert_eq!(bar_scale(0, 0, 0), 1);
    assert_eq!(bar_scale(3, 9, 4), 9);
}

#[test]
fn bot_counts_merge_and_sort() {
    let rows = merge_bot_counts(&[(7, 10), (3, 2), (7, 5), (-1, 4), (3, 1)]);
    assert_eq!(rows, Some(vec![(-1, 4), (3, 3), (7, 15)]));
    assert_eq!(merge_bot_counts(&[]), Some(vec![]));
    assert_eq!(merge_bot_counts(&[(1, i64::MAX), (2, 5), (1, 1)]), None);
    assert_eq!(merge_bot_counts(&[(1, i64::MAX), (2, 5), (1, -1)]), Some(vec![(1, i64::MAX - 1), (2, 5)]));
    let table = bot_breakdown_rows(&[(7, 1234567)]);
    assert_eq!(table[0].bot_id, "7");
    assert_eq!(table[0].count_fmt, "1,234,567");
}

#[test]
fn stats_blocks() {

    let parsed = parse_filters(RawFilterInput {
        user_id: "-5,-6",
        file_name: "cat",
        forward_from: "",
        size_min: "",
        size_max: "",
        id: "",
        date_from: "",
        date_to: "",
    });
    let s = review_stats(&parsed, 3000, 1000, 2000, 600, 400, Some(1234));
    assert_eq!(s.search_user_id, "5, 6");
    assert!(s.is_exclusion);
    assert_eq!(s.total_fmt, "3,000");
    assert_eq!(s.excluded_count_fmt, "1,234");
    assert!(s.has_excluded_count);
    assert_eq!(s.progress_pct_fmt, "33.3");
    assert_eq!(s.acceptance_rate_fmt, "60.0");
    assert_eq!(s.sessions_left_fmt, "200+");
    let d = done_stats(&parsed, "nik", 7, 5, 2);
    assert_eq!(d.search_reviewed_by, "nik");
    assert_eq!(d.acceptance_rate_fmt, "71.4");
    assert_eq!(d.rejection_rate_fmt, "28.6");

    let tp = parse_tgfs_filters(TgfsRawFilterInput {
        user_id: "",
        bot_id: "-9",
        file_name: "",
        forward_from: "",
        size_min: "",
        size_max: "",
        file_id: "",
        date_from: "",
        date_to: "",
    });
    let r = tgfs_review_stats(&tp, 10, 4, 3, 1, 5);
    assert_eq!(r.search_bot_id, "9");
    assert_eq!(r.pending_fmt, "6");
    assert_eq!(r.sessions_left_fmt, "1+");
    assert_eq!(r.acceptance_rate_fmt, "75.0");
    let t = tgfs_done_stats(&tp, "", 3, 1);
    assert_eq!(t.rejected_fmt, "2");
    assert_eq!(t.rejection_rate_fmt, "66.7");
    let b = reviewer_stats(1500, 1000, 500, 6000);
    assert_eq!(b.total_reviewed_fmt, "1,500");
    assert_eq!(b.acceptance_rate_fmt, "66.7");
    assert_eq!(b.contribution_fmt, "25.0");
}

#[test]
fn ratio_text_matches_float_formatting() {
    assert_eq!(ratio_str(0, 0), "0:1");
    assert_eq!(ratio_str(0, 5), "0:1");
    assert_eq!(ratio_str(5, 0), "\u{221e}:1");
    assert_eq!(ratio_str(3, 2), "1.50:1");
    assert_eq!(ratio_str(1, 3), "0.33:1");
    let mut x: u64 = 0x1234_5678_9ABC_DEF1;
    let mut samples = vec![(i64::MAX, 1i64), (1, i64::MAX), (i64::MAX, 7), (1, 8), (1, 200), (5, 8)];
    for a in 1..150i64 {
        for b in 1..150i64 {
            samples.push((a, b));
        }
    }
    for _ in 0..30000 {
        x ^= x << 13;
        x ^= x >> 7;
        x ^= x << 17;
        let a = ((x >> (x % 64)) as i64).max(1);
        x ^= x << 13;
        x ^= x >> 7;
        x ^= x << 17;
        let b = ((x >> (x % 64)) as i64).max(1);
        samples.push((a, b));
    }
    for (a, b) in samples {
        assert_eq!(ratio_str(a, b), format!("{:.2}:1", a as f64 / b as f64), "a = {a}, b = {b}");
    }
}

#[test]
fn tgfs_submit_tally_steps() {
    let mut t = TgfsTally::new();
    t.record(TgfsSubmitEvent::ReviewSaved { restricted: false });
    t.record(TgfsSubmitEvent::ReviewSaved { restricted: true });
    t.record(TgfsSubmitEvent::ReviewSaved { restricted: false });
    t.record(TgfsSubmitEvent::EntryDeleted);
    t.record(TgfsSubmitEvent::OwnerWarned);
    assert_eq!(t, TgfsTally { accepted: 2, rejected: 1, deleted: 1, warned: 1 });
    assert_eq!(t.message(), "Processed 4 files successfully! (1 user warned)");
    assert_eq!(TgfsTally::new().message(), "Processed 0 files successfully!");
    assert!(blob_orphaned(&[]));
    assert!(blob_orphaned(&[0, 0]));
    assert!(!blob_orphaned(&[0, 2]));
}

#[test]
fn tgfs_done_blob_filter_on_lowered_names() {
    let b = blob(true, Some(false), "Nik", Some(5));
    assert!(blob_passes_lowered(&b, "", false, "", ""));
    assert!(blob_passes_lowered(&b, "accepted", true, "ni", "nik"));
    assert!(!blob_passes_lowered(&b, "accepted", true, "NI", "nik"));
    assert!(!blob_passes_lowered(&b, "rejected", false, "", ""));
    let r = blob(true, Some(true), "prdp", Some(5));
    assert!(blob_passes_lowered(&r, "rejected", true, "rd", "prdp"));
    assert!(!blob_passes_lowered(&r, "accepted", false, "", ""));
    assert!(!blob_passes_lowered(&blob(false, None, "x", None), "", false, "", ""));
}

#[test]
fn capitalize_with_given_first_letter() {
    assert_eq!(capitalize_with("SS", "\u{df}tra\u{df}e"), "SStra\u{df}e");
    assert_eq!(capitalize_with("X", ""), "");
    assert_eq!(capitalize("\u{df}tra\u{df}e"), "SStra\u{df}e");
}
