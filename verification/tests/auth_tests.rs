use link_review::auth::{
    access_decision, constant_time_eq, find_user, hash_password, user_pair, verify_password, AccessDecision,
};

#[test]
fn constant_time_equality() {
    assert!(constant_time_eq("secret", "secret"));
    assert!(!constant_time_eq("secret", "secreT"));
    assert!(!constant_time_eq("secret", "secret2"));
    assert!(constant_time_eq("", ""));
    assert!(constant_time_eq("ünï", "ünï"));
    assert!(!constant_time_eq("a", "b"));
}

#[test]
fn login_matches_first_configured_pair() {
    let users = vec![
        ("nik".to_string(), "pw1".to_string()),
        ("prdp".to_string(), "pw2".to_string()),
        ("nik".to_string(), "pw3".to_string()),
    ];
    assert_eq!(find_user(&users, "prdp", "pw2"), Some(1));
    assert_eq!(find_user(&users, "nik", "pw3"), Some(2));
    assert_eq!(find_user(&users, "nik", "pw2"), None);
    assert_eq!(find_user(&users, "NIK", "pw1"), None);
    assert_eq!(find_user(&[], "nik", "pw1"), None);
}

#[test]
fn env_user_pairs() {
    assert_eq!(user_pair(Some("a".into()), Some("b".into())), Some(("a".to_string(), "b".to_string())));
    assert_eq!(user_pair(Some("".into()), Some("b".into())), None);
    assert_eq!(user_pair(Some("a".into()), None), None);
    assert_eq!(user_pair(None, Some("b".into())), None);
}

#[test]
fn access_gate() {
    assert_eq!(access_decision(Some("k"), None, "k"), AccessDecision::Allow);
    assert_eq!(access_decision(Some("bad"), Some("k"), "k"), AccessDecision::AllowAndGrant);
    assert_eq!(access_decision(None, Some("k"), "k"), AccessDecision::AllowAndGrant);
    assert_eq!(access_decision(Some("bad"), Some("bad"), "k"), AccessDecision::NotFound);
    assert_eq!(access_decision(None, None, "k"), AccessDecision::NotFound);
    // The cookie granted holds the key, so the next request passes.
    assert_eq!(access_decision(Some("k"), Some("zzz"), "k"), AccessDecision::Allow);
}

#[test]
fn argon2_hash_then_verify() {
    let h = hash_password("hunter2").unwrap();
    assert!(h.starts_with("$argon2"));
    assert!(verify_password("hunter2", &h));
    assert!(!verify_password("hunter3", &h));
    assert!(!verify_password("hunter2", "not a phc string"));
    assert_ne!(hash_password("hunter2").unwrap(), h);
    let e = hash_password("").unwrap();
    assert!(verify_password("", &e));
}

#[test]
fn verify_refuses_strings_that_are_not_argon2_hashes() {
    let h = hash_password("pw").unwrap();
    assert!(h.starts_with("$argon2id"));
    assert!(!verify_password("pw", ""));
    assert!(!verify_password("pw", &h[1..]));
    assert!(!verify_password("pw", &h.replacen("argon2id", "scrypt", 1)));
    assert!(!verify_password("px", &h));
}

#[test]
fn constant_time_eq_and_find_user_scan_everything() {
    assert!(constant_time_eq("abc", "abc"));
    assert!(!constant_time_eq("abc", "abd"));
    assert!(!constant_time_eq("abc", "ab"));
    assert!(!constant_time_eq("", "a"));
    assert!(constant_time_eq("", ""));
    let users = vec![
        ("nik".to_string(), "a".to_string()),
        ("prdp".to_string(), "b".to_string()),
        ("nik".to_string(), "a".to_string()),
    ];
    assert_eq!(find_user(&users, "nik", "a"), Some(0));
    assert_eq!(find_user(&users, "prdp", "b"), Some(1));
    assert_eq!(find_user(&users, "prdp", "a"), None);
}
