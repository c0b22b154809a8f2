use link_review::util::{commas, fmt_pct1, format_file_size, regex_escape, url_encode};

fn float_file_size(bytes: i64) -> String {
    let mut size = bytes as f64;
    for unit in ["B", "KB", "MB", "GB"] {
        if size.abs() < 1024.0 {
            return format!("{:.2} {}", size, unit);
        }
        size /= 1024.0;
    }
    format!("{:.2} TB", size)
}

#[test]
fn format_file_size_examples() {
    assert_eq!(format_file_size(0), "0.00 B");
    assert_eq!(format_file_size(1023), "1023.00 B");
    assert_eq!(format_file_size(1024), "1.00 KB");
    assert_eq!(format_file_size(1536), "1.50 KB");
    assert_eq!(format_file_size(-1536), "-1.50 KB");
    assert_eq!(format_file_size(1048576), "1.00 MB");
    assert_eq!(format_file_size(1099511627776), "1.00 TB");
}

#[test]
fn format_file_size_matches_float_arithmetic() {
    let mut samples: Vec<i64> = vec![
        i64::MIN,
        i64::MIN + 1,
        i64::MAX,
        i64::MAX - 1,
        (1i64 << 53) - 1,
        1i64 << 53,
        (1i64 << 53) + 1,
        (1i64 << 53) + 3,
        (1i64 << 54) + 2,
        (1i64 << 54) + 6,
        1152,
        1160,
        1126,
        1127,
        1134,
        5 * 1024 + 5,
        1024 * 1024 - 1,
        1024 * 1024 * 1024 - 1,
    ];
    let mut x: u64 = 0x9E37_79B9_7F4A_7C15;
    for _ in 0..20000 {
        x ^= x << 13;
        x ^= x >> 7;
        x ^= x << 17;
        let shift = (x % 64) as u32;
        samples.push((x >> shift) as i64);
        samples.push(-((x >> (shift | 1)) as i64));
    }
    for k in 0..2048i64 {
        samples.push(k * 1024 + 5);
        samples.push(k * 1024 * 1024 + 5 * 1024 + 5 * 1024 / 10);
        samples.push(k * 128 + 1);
        samples.push(k * 8 * 1024 + 5 * 1024 / 8);
    }
    for b in samples {
        assert_eq!(format_file_size(b), float_file_size(b), "bytes = {}", b);
    }
}

#[test]
fn commas_examples() {
    assert_eq!(commas(0), "0");
    assert_eq!(commas(999), "999");
    assert_eq!(commas(1000), "1,000");
    assert_eq!(commas(1234567), "1,234,567");
    assert_eq!(commas(-1234567), "-1,234,567");
    assert_eq!(commas(i64::MIN), "-9,223,372,036,854,775,808");
    assert_eq!(commas(i64::MAX), "9,223,372,036,854,775,807");
}

#[test]
fn regex_escape_examples() {
    assert_eq!(regex_escape("a+b"), "a\\+b");
    assert_eq!(regex_escape("(x|y)*.mkv"), "\\(x\\|y\\)\\*\\.mkv");
    assert_eq!(regex_escape("plain name"), "plain name");
    assert_eq!(regex_escape("\\$^"), "\\\\\\$\\^");
}

#[test]
fn url_encode_examples() {
    assert_eq!(url_encode("abc-_.~XYZ09"), "abc-_.~XYZ09");
    assert_eq!(url_encode("a b&c=d"), "a%20b%26c%3Dd");
    assert_eq!(url_encode("é"), "%C3%A9");
    assert_eq!(url_encode(""), "");
}

fn float_pct1(n: i64, d: i64) -> String {
    let p = if d > 0 { (n as f64 / d as f64) * 100.0 } else { 0.0 };
    format!("{:.1}", p)
}

#[test]
fn fmt_pct1_examples() {
    assert_eq!(fmt_pct1(1, 3), "33.3");
    assert_eq!(fmt_pct1(2, 3), "66.7");
    assert_eq!(fmt_pct1(0, 5), "0.0");
    assert_eq!(fmt_pct1(5, 0), "0.0");
    assert_eq!(fmt_pct1(5, -2), "0.0");
    assert_eq!(fmt_pct1(10, 10), "100.0");
    assert_eq!(fmt_pct1(-1, 3), "-33.3");
    assert_eq!(fmt_pct1(-1, 1_000_000), "-0.0");
    assert_eq!(fmt_pct1(1, 8), "12.5");
    assert_eq!(fmt_pct1(3, 1), "300.0");
}

#[test]
fn fmt_pct1_matches_float_arithmetic() {
    let mut samples: Vec<(i64, i64)> = vec![
        (i64::MAX, 1),
        (i64::MIN, 1),
        (i64::MAX, i64::MAX),
        (1, i64::MAX),
        (i64::MIN, i64::MAX),
        (i64::MAX - 1, 3),
        ((1 << 53) + 1, (1 << 53) - 1),
        (1, 1 << 62),
    ];
    for n in 0..200i64 {
        for d in 1..200i64 {
            samples.push((n, d));
        }
    }
    let mut x: u64 = 0x2545_F491_4F6C_DD1D;
    for _ in 0..40000 {
        x ^= x << 13;
        x ^= x >> 7;
        x ^= x << 17;
        let n = (x >> (x % 64)) as i64;
        x ^= x << 13;
        x ^= x >> 7;
        x ^= x << 17;
        let d = (x >> (x % 64)) as i64;
        samples.push((n, d));
        samples.push((-n, d));
        samples.push((n % 100_000, d % 1000));
    }
    for (n, d) in samples {
        assert_eq!(fmt_pct1(n, d), float_pct1(n, d), "n = {n}, d = {d}");
    }
}
