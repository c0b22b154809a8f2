use link_review::dates::{ist_date_end_secs, ist_date_start_secs};
use link_review::query_filters::{
    parse_date_filter, parse_filters, parse_page_size, parse_size_range, parse_user_id_filter, Condition,
    RawFilterInput,
};
use link_review::tgfs_query_filters::{parse_tgfs_filters, TgfsRawFilterInput};

fn plgb<'a>(user_id: &'a str, file_name: &'a str, size_min: &'a str, size_max: &'a str, id: &'a str) -> RawFilterInput<'a> {
    RawFilterInput {
        user_id,
        file_name,
        forward_from: "",
        size_min,
        size_max,
        id,
        date_from: "",
        date_to: "",
    }
}

#[test]
fn page_size_options() {
    assert_eq!(parse_page_size("25"), 25);
    assert_eq!(parse_page_size(" 100 "), 100);
    assert_eq!(parse_page_size("7"), 10);
    assert_eq!(parse_page_size("abc"), 10);
    assert_eq!(parse_page_size(""), 10);
    assert_eq!(parse_page_size("5"), 5);
}

#[test]
fn size_range_is_clamped_and_ordered() {
    assert_eq!(parse_size_range("", ""), (0, 4200));
    assert_eq!(parse_size_range("10", "5"), (5, 10));
    assert_eq!(parse_size_range("-3", "99999"), (0, 4200));
    assert_eq!(parse_size_range("x", "300"), (0, 300));
}

#[test]
fn ist_day_bounds() {
    // 2024-01-01 00:00 IST is 2023-12-31 18:30 UTC.
    assert_eq!(ist_date_start_secs("2024-01-01"), Some(1704047400));
    assert_eq!(ist_date_end_secs("2024-01-01"), Some(1704047400 + 86399));
    assert_eq!(ist_date_start_secs(" 2024-01-01 "), Some(1704047400));
    assert_eq!(ist_date_start_secs(""), None);
    assert_eq!(ist_date_start_secs("2024-02-30"), None);
    assert_eq!(ist_date_start_secs("yesterday"), None);
}

#[test]
fn user_id_list_include() {
    let f = parse_user_id_filter(" 12, 5 ");
    assert_eq!(f.actual_user_ids, vec![12, 5]);
    assert!(!f.is_exclusion);
    assert!(!f.invalid_user_id);
    assert!(matches!(f.condition, Some(Condition::UserIdIn(ref v)) if *v == vec![12, 5]));
}

#[test]
fn user_id_single_and_exclusion() {
    let f = parse_user_id_filter("42");
    assert!(matches!(f.condition, Some(Condition::UserIdEq(42))));
    let f = parse_user_id_filter("-7");
    assert!(f.is_exclusion);
    assert_eq!(f.actual_user_ids, vec![7]);
    assert!(matches!(f.condition, Some(Condition::UserIdNe(7))));
    let f = parse_user_id_filter("-7,-8");
    assert!(matches!(f.condition, Some(Condition::UserIdNotIn(ref v)) if *v == vec![7, 8]));
    let f = parse_user_id_filter("-7,8");
    assert!(!f.is_exclusion);
    assert!(matches!(f.condition, Some(Condition::UserIdIn(ref v)) if *v == vec![7, 8]));
}

#[test]
fn user_id_invalid() {
    let f = parse_user_id_filter("12,abc");
    assert!(f.invalid_user_id);
    assert_eq!(f.search_user_id, "");
    assert!(f.condition.is_none());
    let f = parse_user_id_filter(" , ");
    assert!(f.invalid_user_id);
    let f = parse_user_id_filter("   ");
    assert!(!f.invalid_user_id);
    assert!(f.condition.is_none());
}

#[test]
fn date_filter_swaps_reversed_days() {
    let d = parse_date_filter("2024-02-01", "2024-01-01");
    assert!(!d.invalid_date_range);
    assert_eq!(d.search_date_from, "2024-01-01");
    assert_eq!(d.search_date_to, "2024-02-01");
    assert_eq!(d.from_secs, Some(1704047400));
    assert_eq!(d.to_secs, Some(1706725800 + 86399));
    let d = parse_date_filter("bad", "2024-01-01");
    assert!(d.invalid_date_range);
    assert_eq!(d.search_date_from, "");
    assert_eq!(d.from_secs, None);
    assert_eq!(d.to_secs, Some(1704047400 + 86399));
}

#[test]
fn plgb_filters_conditions_in_order() {
    let p = parse_filters(plgb("12", "foo bar+", "5", "10", "650abcdef0123456789abcde"));
    assert_eq!(p.conditions.len(), 5);
    assert!(matches!(p.conditions[0], Condition::UserIdEq(12)));
    assert!(matches!(p.conditions[1], Condition::FileNameMatches(ref s) if s == "foo"));
    assert!(matches!(p.conditions[2], Condition::FileNameMatches(ref s) if s == "bar\\+"));
    assert!(matches!(p.conditions[3], Condition::FileSizeBetween(a, b) if a == 5 * 1048576 && b == 10 * 1048576));
    assert!(matches!(p.conditions[4], Condition::IdEq(_)));
    assert!(p.size_filter_active);
    assert_eq!(p.search_size_min, 5);
    assert_eq!(p.search_size_max, 10);
    assert_eq!(p.search_file_name, "foo bar+");
    assert!(!p.invalid_file_id);
}

#[test]
fn plgb_filters_report_bad_fields() {
    let p = parse_filters(plgb("x", "", "", "", "zz"));
    assert!(p.invalid_user_id);
    assert!(p.invalid_file_id);
    assert_eq!(p.search_id, "");
    assert!(p.conditions.is_empty());
    assert!(!p.size_filter_active);
}

#[test]
fn tgfs_filters_bot_and_file_ids() {
    let p = parse_tgfs_filters(TgfsRawFilterInput {
        user_id: "",
        bot_id: "-99",
        file_name: "",
        forward_from: "",
        size_min: "",
        size_max: "",
        file_id: "1234",
        date_from: "",
        date_to: "",
    });
    assert!(p.bot_is_exclusion);
    assert_eq!(p.actual_bot_id, Some(99));
    assert_eq!(p.search_bot_id, "-99");
    assert!(p.conditions.iter().any(|c| matches!(c, Condition::BotIdNe(99))));
    assert!(p.conditions.iter().any(|c| matches!(c, Condition::FileIdEq(1234))));
    assert!(!p.invalid_bot_id && !p.invalid_file_id);
}

#[test]
fn tgfs_filters_invalid_fields() {
    let p = parse_tgfs_filters(TgfsRawFilterInput {
        user_id: "",
        bot_id: "bot",
        file_name: "",
        forward_from: "",
        size_min: "",
        size_max: "",
        file_id: "1.5",
        date_from: "2024-13-01",
        date_to: "",
    });
    assert!(p.invalid_bot_id);
    assert!(p.invalid_file_id);
    assert!(p.invalid_date_range);
    assert!(p.conditions.is_empty());
}

#[test]
fn tgfs_filters_reversed_date_range() {
    let p = parse_tgfs_filters(TgfsRawFilterInput {
        user_id: "",
        bot_id: "",
        file_name: "",
        forward_from: "",
        size_min: "",
        size_max: "",
        file_id: "",
        date_from: "2024-01-05",
        date_to: "2024-01-01",
    });
    assert_eq!(p.search_date_from, "2024-01-01");
    assert_eq!(p.search_date_to, "2024-01-05");
    assert!(p.date_filter_active);
    assert!(!p.invalid_date_range);
    assert_eq!(p.conditions.len(), 1);
    assert!(matches!(
        p.conditions[0],
        Condition::AddedAtBetween(Some(1704047400), Some(1704479399))
    ));
}

#[test]
fn day_end_is_day_start_plus_a_day_less_a_second() {
    for d in ["2023-12-31", "2024-02-29", "2024-03-31", "1999-01-01"] {
        assert_eq!(ist_date_end_secs(d), ist_date_start_secs(d).map(|a| a + 86399));
    }
    assert_eq!(ist_date_end_secs("2023-02-29"), None);
}

#[test]
fn day_start_and_end_fail_together_but_on_the_first_date() {
    for d in ["", "2024-02-30", "yesterday", "2024-1-5x"] {
        assert_eq!(ist_date_start_secs(d), None);
        assert_eq!(ist_date_end_secs(d), None);
    }
    assert_eq!(ist_date_start_secs("-262143-01-01"), None);
    assert_eq!(ist_date_end_secs("-262143-01-01"), Some(-8334601228800 + 86399 - 19800));
    assert_eq!(ist_date_end_secs("-262143-01-02"), ist_date_start_secs("-262143-01-02").map(|a| a + 86399));
}
