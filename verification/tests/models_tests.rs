use link_review::models::{FileCard, PlgbFileDoc};
use link_review::tgfs_join::{blob_cluster_of, blob_keys, group_by_cluster, is_pending, next_sample_step, sample_pool_size, SampleStep};
use link_review::tgfs_models::{TgfsBlobDoc, TgfsFileCard, TgfsIndexDoc};
use link_review::tgfs_token::make_token;

fn index_doc(cluster: Option<i64>, fid: Option<i64>) -> TgfsIndexDoc {
    TgfsIndexDoc {
        oid: [0xab; 12],
        user_id: Some(42),
        bot_id: None,
        file_id: fid,
        username: Some("uploader".to_string()),
        forward_name: None,
        forward_username: None,
        file_name: None,
        file_size: None,
        added_at: Some("2024-01-01 05:30 IST".to_string()),
        cluster,
    }
}

#[test]
fn plgb_card_fields() {
    let doc = PlgbFileDoc {
        id: None,
        user_id: None,
        file_name: None,
        file_size: None,
        mime_type: None,
        username: None,
        forward_first_name: Some("Bob".to_string()),
        forward_username: None,
        forward_chat_title: None,
        forward_chat_username: None,
        is_public: None,
        special_type: None,
        reviewed_by: Some("nik".to_string()),
        reviewed_at: None,
    };
    let c = FileCard::from_doc(&doc, 4, " cdn.example.com// ");
    assert_eq!(c.index, 4);
    assert_eq!(c.id, "");
    assert_eq!(c.user_id, "N/A");
    assert_eq!(c.file_name, "Unknown");
    assert_eq!(c.file_size, "0.00 B");
    assert_eq!(c.mime_type, "Unknown");
    assert!(c.has_forward_info);
    assert!(!c.is_public);
    assert_eq!(c.dl_url, "https://cdn.example.com/dl//Unknown");
    assert_eq!(c.watch_url, "https://cdn.example.com/watch//Unknown");
    assert_eq!(c.reviewed_by, "nik");
}

#[test]
fn tgfs_card_joins_blob() {
    let blob = TgfsBlobDoc {
        file_name: Some("blob.mkv".to_string()),
        size: Some(1048576),
        mime_type: Some("video/x-matroska".to_string()),
        is_owner: Some(true),
        is_restricted: Some(true),
        reviewed_by: Some("prdp".to_string()),
        reviewed_at: Some("2024-01-02 10:00 IST".to_string()),
        has_reviewed_at: true,
        reviewed_at_millis: Some(1),
    };
    let d = index_doc(Some(1), Some(77));
    let c = TgfsFileCard::from_docs(&d, Some(&blob), 2, 9, b"sec", "https://t");
    assert_eq!(c.entry_id, "2:abababababababababababab");
    assert_eq!(c.file_id, 77);
    assert_eq!(c.bot_id, "0");
    assert_eq!(c.user_id, "42");
    assert_eq!(c.file_name, "blob.mkv");
    assert_eq!(c.file_size, "1.00 MB");
    assert!(c.is_owner && c.is_restricted && c.has_forward_info);
    assert_eq!(c.dl_url, format!("https://t/dl/{}", make_token(b"sec", 42, 77)));
    assert_eq!(c.watch_url, format!("https://t/wt/{}", make_token(b"sec", 42, 77)));
    assert_eq!(c.added_at, "2024-01-01 05:30 IST");
    let orphan = TgfsFileCard::from_docs(&index_doc(None, None), None, 0, 1, b"sec", "https://t");
    assert_eq!(orphan.file_name, "Unknown");
    assert_eq!(orphan.mime_type, "Unknown");
    assert!(!orphan.is_restricted);
    assert_eq!(orphan.reviewed_at, "");
}

#[test]
fn blob_cluster_clamped() {
    assert_eq!(blob_cluster_of(&index_doc(Some(1), None), 3), 1);
    assert_eq!(blob_cluster_of(&index_doc(Some(5), None), 3), 0);
    assert_eq!(blob_cluster_of(&index_doc(Some(-2), None), 3), 0);
    assert_eq!(blob_cluster_of(&index_doc(None, None), 3), 0);
}

#[test]
fn pending_means_unreviewed_or_orphaned() {
    assert!(is_pending(None));
    let mut b = TgfsBlobDoc {
        file_name: None,
        size: None,
        mime_type: None,
        is_owner: None,
        is_restricted: None,
        reviewed_by: None,
        reviewed_at: None,
        has_reviewed_at: false,
        reviewed_at_millis: None,
    };
    assert!(is_pending(Some(&b)));
    b.has_reviewed_at = true;
    assert!(!is_pending(Some(&b)));
}

#[test]
fn blob_fetch_grouping() {
    let docs = vec![index_doc(Some(1), Some(10)), index_doc(Some(0), None), index_doc(Some(9), Some(11))];
    let keys = blob_keys(&docs, 2);
    assert_eq!(keys, vec![(1, 10), (0, 11)]);
    let groups = group_by_cluster(&[(1, 10), (0, 11), (1, 12)]);
    let mut g: Vec<(usize, Vec<i64>)> = groups;
    g.sort();
    assert_eq!(g, vec![(0, vec![11]), (1, vec![10, 12])]);
}

#[test]
fn sampling_steps() {
    assert_eq!(sample_pool_size(10, 4), 40);
    assert_eq!(sample_pool_size(100, 32), 2000);
    assert!(matches!(next_sample_step(12, 10, 4), SampleStep::Done { keep: 10 }));
    assert!(matches!(next_sample_step(3, 10, 4), SampleStep::Retry { multiplier: 16 }));
    assert!(matches!(next_sample_step(3, 10, 32), SampleStep::Done { keep: 3 }));
}
