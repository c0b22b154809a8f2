use link_review::link_list::handlers::{build_search_url, search_page_size, search_pagination};
use link_review::link_list::models::{icon_for, icon_for_lowered};
use link_review::link_list::search::{
    chars_lt, is_tgfs_public, name_order, order_by_keys, plgb_detail, plgb_tiles, tgfs_detail, tgfs_tiles,
};
use link_review::models::PlgbFileDoc;
use link_review::tgfs_models::{TgfsBlobDoc, TgfsIndexDoc};
use std::collections::HashMap;

fn plgb_doc(name: &str, mime: &str) -> PlgbFileDoc {
    PlgbFileDoc {
        id: Some([1; 12]),
        user_id: Some(9),
        file_name: Some(name.to_string()),
        file_size: Some(1536),
        mime_type: Some(mime.to_string()),
        username: None,
        forward_first_name: None,
        forward_username: None,
        forward_chat_title: None,
        forward_chat_username: None,
        is_public: Some(true),
        special_type: None,
        reviewed_by: None,
        reviewed_at: None,
    }
}

fn tgfs_index(n: u8, fid: i64) -> TgfsIndexDoc {
    TgfsIndexDoc {
        oid: [n; 12],
        user_id: Some(1),
        bot_id: Some(2),
        file_id: Some(fid),
        username: None,
        forward_name: None,
        forward_username: None,
        file_name: Some(format!("t{n}.zip")),
        file_size: Some(10),
        added_at: None,
        cluster: None,
    }
}

fn tgfs_blob(reviewed: bool, restricted: Option<bool>) -> TgfsBlobDoc {
    TgfsBlobDoc {
        file_name: None,
        size: None,
        mime_type: None,
        is_owner: None,
        is_restricted: restricted,
        reviewed_by: None,
        reviewed_at: None,
        has_reviewed_at: reviewed,
        reviewed_at_millis: None,
    }
}

#[test]
fn icons_by_mime_and_extension() {
    assert_eq!(icon_for("VIDEO/MP4", "x"), "🎬");
    assert_eq!(icon_for("application/octet-stream", "Song.FLAC"), "🎵");
    assert_eq!(icon_for("", "photo.jpeg"), "🖼️");
    assert_eq!(icon_for("application/pdf", "doc"), "📕");
    assert_eq!(icon_for("application/vnd.android.package-archive", "app"), "⚙️");
    assert_eq!(icon_for("", "backup.tar.gz"), "🗜️");
    assert_eq!(icon_for("application/msword", "x"), "📝");
    assert_eq!(icon_for("", "sheet.XLSX"), "📊");
    assert_eq!(icon_for("", "talk.pptx"), "📽️");
    assert_eq!(icon_for("text/plain", "x"), "📄");
    assert_eq!(icon_for("application/octet-stream", "noext"), "📁");
}

#[test]
fn icon_specific_mime_beats_extension() {
    assert_eq!(icon_for("audio/mpeg", "clip.mp4"), "🎵");
    assert_eq!(icon_for("image/png", "song.mp3"), "🖼️");
    assert_eq!(icon_for("application/zip", "movie.mkv"), "🗜️");
    assert_eq!(icon_for("Unknown", "movie.mkv"), "🎬");
    assert_eq!(icon_for_lowered("text/plain", "mp4"), "📄");
    assert_eq!(icon_for_lowered("application/octet-stream", "mp4"), "🎬");
    assert_eq!(icon_for_lowered("", "docx"), "📝");
}

#[test]
fn search_urls_and_page_size() {
    assert_eq!(build_search_url("a b", 2, 30), "/link-list?q=a%20b&page=2&page_size=30");
    assert_eq!(search_page_size("30"), 30);
    assert_eq!(search_page_size(" 30 "), 30);
    assert_eq!(search_page_size("15"), 15);
    assert_eq!(search_page_size("100"), 15);
    assert_eq!(search_page_size(""), 15);
}

#[test]
fn search_pagination_window() {
    let p = search_pagination("cat", true, 100, "6", 15);
    assert_eq!(p.total_pages, 7);
    assert_eq!(p.page, 6);
    assert_eq!((p.start, p.end), (75, 90));
    let numbers: Vec<i64> = p.pages.iter().map(|l| l.number).collect();
    assert_eq!(numbers, vec![5, 6, 7]);
    assert!(p.pages[1].active);
    assert_eq!(p.prev_href.as_deref(), Some("/link-list?q=cat&page=5&page_size=15"));
    assert_eq!(p.next_href.as_deref(), Some("/link-list?q=cat&page=7&page_size=15"));

    let p = search_pagination("cat", true, 100, "99", 15);
    assert_eq!(p.page, 7);
    assert_eq!((p.start, p.end), (90, 100));
    assert!(p.next_href.is_none());

    let p = search_pagination("", false, 0, "3", 15);
    assert_eq!(p.total_pages, 1);
    assert_eq!(p.page, 1);
    assert_eq!((p.start, p.end), (0, 0));
    assert!(p.prev_href.is_none() && p.next_href.is_none());
    assert_eq!(p.pages.len(), 1);
}

#[test]
fn string_order() {
    let a: Vec<char> = "abc".chars().collect();
    let b: Vec<char> = "abd".chars().collect();
    let c: Vec<char> = "ab".chars().collect();
    assert!(chars_lt(&a, &b));
    assert!(!chars_lt(&b, &a));
    assert!(chars_lt(&c, &a));
    assert!(!chars_lt(&a, &a));
}

#[test]
fn results_sorted_by_name_ignoring_case_stably() {
    let names: Vec<String> = ["beta", "Alpha", "alpha", "Gamma", "BETA", "a"].iter().map(|s| s.to_string()).collect();
    let order = name_order(&names);
    assert_eq!(order, vec![5, 1, 2, 0, 4, 3]);
    let mut idx: Vec<usize> = (0..names.len()).collect();
    idx.sort_by(|x, y| names[*x].to_lowercase().cmp(&names[*y].to_lowercase()));
    assert_eq!(order, idx);
}

#[test]
fn tgfs_public_listing() {
    assert!(is_tgfs_public(Some(&tgfs_blob(true, Some(false)))));
    assert!(!is_tgfs_public(Some(&tgfs_blob(true, None))));
    assert!(!is_tgfs_public(Some(&tgfs_blob(true, Some(true)))));
    assert!(!is_tgfs_public(Some(&tgfs_blob(false, Some(false)))));
    assert!(!is_tgfs_public(None));
}

#[test]
fn tiles_and_details() {
    let tiles = plgb_tiles(&[plgb_doc("Movie.MKV", "application/octet-stream")], "cdn.example.com");
    assert_eq!(tiles[0].source, "plgb");
    assert_eq!(tiles[0].detail_id, "010101010101010101010101");
    assert_eq!(tiles[0].file_size_fmt, "1.50 KB");
    assert_eq!(tiles[0].icon, "🎬");

    let cands = vec![(0, tgfs_index(1, 11)), (2, tgfs_index(2, 12)), (0, tgfs_index(3, 13))];
    let mut blobs = HashMap::new();
    blobs.insert(11, tgfs_blob(true, Some(false)));
    blobs.insert(12, tgfs_blob(true, Some(true)));
    blobs.insert(13, tgfs_blob(true, Some(false)));
    let t = tgfs_tiles(&cands, &blobs, b"k", "https://t");
    assert_eq!(t.len(), 2);
    assert_eq!(t[0].0, 0);
    assert_eq!(t[1].0, 2);
    assert_eq!(t[1].1.detail_id, "0:030303030303030303030303");
    assert_eq!(t[1].1.icon, "🗜️");

    let d = plgb_detail(&plgb_doc("a.pdf", "application/pdf"), "cdn.example.com/");
    assert_eq!(d.dl_url, "https://cdn.example.com/dl/010101010101010101010101/a.pdf");
    assert_eq!(d.watch_url, "https://cdn.example.com/watch/010101010101010101010101/a.pdf");
    assert_eq!(d.icon, "📕");
    assert!(tgfs_detail(&tgfs_index(1, 11), &tgfs_blob(true, Some(true)), 0, b"k", "https://t").is_none());
    let d = tgfs_detail(&tgfs_index(1, 11), &tgfs_blob(true, Some(false)), 0, b"k", "https://t").unwrap();
    assert!(d.dl_url.starts_with("https://t/dl/"));
}

#[test]
fn search_pages_cover_every_result_once() {
    for total in [0usize, 1, 14, 15, 16, 29, 30, 31, 100, 451] {
        for ps in [15i64, 30] {
            let first = search_pagination("x", true, total, "1", ps);
            let mut shown = Vec::new();
            for p in 1..=first.total_pages {
                let r = search_pagination("x", true, total, &p.to_string(), ps);
                assert_eq!(r.page, p);
                assert!(total == 0 || r.start < r.end);
                shown.extend(r.start..r.end);
            }
            assert_eq!(shown, (0..total).collect::<Vec<usize>>());
        }
    }
}

#[test]
fn order_by_lowered_keys_is_stable() {
    let keys: Vec<Vec<char>> = ["b", "a", "b", "", "ab"].iter().map(|k| k.chars().collect()).collect();
    assert_eq!(order_by_keys(&keys), vec![3, 1, 4, 0, 2]);
    assert_eq!(order_by_keys(&[]), Vec::<usize>::new());
}
