use openfang_core::session_auth::{
    accept_download, accept_session, create_download_token, create_download_token_at,
    create_session_token, create_session_token_at, extract_session_cookie, has_wide_lanes,
    hash_password,
    hash_password_with, parse_download_fields, parse_session_fields, password_accepted,
    session_cookie_in, verify_download_token, verify_download_token_at, verify_password,
    verify_session_token, verify_session_token_at,
};
use sha2::Digest;

const ADMIN_TOKEN: &str = "YWRtaW46MTcwMDAwMzYwMDo2ZGNiOTQwMjkwOWUzYWY4ZGFlNTlkNTI1NjA3ODgxMDc2MzE2YmVjMTViYjY4ZGFiYWM4YTk5MTEzMzM3NzE5";
const DOWNLOAD_TOKEN: &str = "ZG93bmxvYWQ6YWdlbnQtYToxNzAwMDAwMzAwOmNtVndiM0owY3k5bWFXNWhiRHAyTVM1dFpBOjM2ZTY1YTdmMDgzNzJkODkwN2MwMjZkMDllMTQ0NmE2ZDRkNTc3YTE2NzFmYTI0ZmNlYmQwMDYyMjMwMmZhYTg=";

#[test]
fn test_hash_and_verify_password() {
    let hash = hash_password("secret123");
    assert!(
        hash.starts_with("$argon2id$"),
        "should produce Argon2id PHC string"
    );
    assert!(verify_password("secret123", &hash));
    assert!(!verify_password("wrong", &hash));
}

#[test]
fn test_hash_produces_unique_salts() {
    let h1 = hash_password("same");
    let h2 = hash_password("same");
    assert_ne!(h1, h2, "each hash should use a unique salt");
    assert!(verify_password("same", &h1));
    assert!(verify_password("same", &h2));
}

#[test]
fn test_rejects_non_argon2_hash() {
    // A plain SHA256 hex string should no longer be accepted.
    let sha256_hash = hex::encode(sha2::Sha256::digest(b"password"));
    assert!(!verify_password("password", &sha256_hash));
}

#[test]
fn test_create_and_verify_token() {
    let token = create_session_token("admin", "my-secret", 1);
    let user = verify_session_token(&token, "my-secret");
    assert_eq!(user, Some("admin".to_string()));
}

#[test]
fn test_download_token_is_agent_and_path_scoped() {
    let token = create_download_token("agent-a", "reports/final:v1.md", "secret", 300);

    assert!(verify_download_token(
        &token,
        "secret",
        "agent-a",
        "reports/final:v1.md"
    ));
    assert!(!verify_download_token(
        &token,
        "secret",
        "agent-b",
        "reports/final:v1.md"
    ));
    assert!(!verify_download_token(
        &token,
        "secret",
        "agent-a",
        "reports/other.md"
    ));
}

#[test]
fn test_token_wrong_secret() {
    let token = create_session_token("admin", "my-secret", 1);
    let user = verify_session_token(&token, "wrong-secret");
    assert_eq!(user, None);
}

#[test]
fn test_token_invalid_base64() {
    let user = verify_session_token("not-valid-base64!!!", "secret");
    assert_eq!(user, None);
}

#[test]
fn test_rejects_garbage_input() {
    assert!(!verify_password("x", "short"));
    assert!(!verify_password("x", ""));
}

#[test]
fn test_verify_malformed_argon2_hash() {
    // Starts with $argon2 but is not a valid PHC string.
    assert!(!verify_password("x", "$argon2id$garbage"));
}

#[test]
fn test_extract_session_cookie_present() {
    let mut h = axum::http::HeaderMap::new();
    h.insert(
        "cookie",
        "foo=bar; openfang_session=abc.def.ghi; baz=qux"
            .parse()
            .unwrap(),
    );
    assert_eq!(extract_session_cookie(&h).as_deref(), Some("abc.def.ghi"));
}

#[test]
fn test_extract_session_cookie_absent() {
    let mut h = axum::http::HeaderMap::new();
    h.insert("cookie", "foo=bar; baz=qux".parse().unwrap());
    assert_eq!(extract_session_cookie(&h), None);
}

#[test]
fn test_extract_session_cookie_no_header() {
    let h = axum::http::HeaderMap::new();
    assert_eq!(extract_session_cookie(&h), None);
}

#[test]
fn test_extract_session_cookie_only_value() {
    let mut h = axum::http::HeaderMap::new();
    h.insert("cookie", "openfang_session=lonely".parse().unwrap());
    assert_eq!(extract_session_cookie(&h).as_deref(), Some("lonely"));
}

#[test]
fn cookie_header_outside_visible_ascii_is_not_read() {
    let mut h = axum::http::HeaderMap::new();
    h.insert(
        "cookie",
        axum::http::HeaderValue::from_bytes(b"openfang_session=\xff").unwrap(),
    );
    assert_eq!(extract_session_cookie(&h), None);
}

#[test]
fn first_cookie_header_and_first_session_cookie_count() {
    let mut h = axum::http::HeaderMap::new();
    h.append("cookie", "a=b".parse().unwrap());
    h.append("cookie", "openfang_session=second".parse().unwrap());
    assert_eq!(extract_session_cookie(&h), None);
    assert_eq!(
        session_cookie_in("openfang_session=one;openfang_session=two"),
        Some("one".to_string())
    );
    assert_eq!(
        session_cookie_in(" \topenfang_session=\t"),
        Some(String::new())
    );
    assert_eq!(session_cookie_in("xopenfang_session=a"), None);
}

#[test]
fn session_token_has_its_exact_form() {
    let token = create_session_token_at("admin", "my-secret", 1, 1_700_000_000);
    assert_eq!(token, ADMIN_TOKEN);
}

#[test]
fn session_token_is_good_through_its_last_second() {
    let user = Some("admin".to_string());
    assert_eq!(
        verify_session_token_at(ADMIN_TOKEN, "my-secret", 1_700_000_000),
        user
    );
    assert_eq!(
        verify_session_token_at(ADMIN_TOKEN, "my-secret", 1_700_003_600),
        user
    );
    assert_eq!(
        verify_session_token_at(ADMIN_TOKEN, "my-secret", 1_700_003_601),
        None
    );
}

#[test]
fn username_may_hold_colons() {
    let token = create_session_token_at("a:b", "my-secret", 1, 1_700_000_000);
    assert_eq!(
        token,
        "YTpiOjE3MDAwMDM2MDA6NmVmZWIzMzU3ZGY0YzZmN2NjNjk4YzZmZGQxYjgxYmE2Zjc2YmRkNmU0MmEzM2Q3NTYyOGNkNjA3MGYzNmEwYg=="
    );
    assert_eq!(
        verify_session_token_at(&token, "my-secret", 1_700_003_600),
        Some("a:b".to_string())
    );
    assert_eq!(
        verify_session_token_at(&token, "other-secret", 1_700_003_600),
        None
    );
    let token = create_session_token("ops:alice", "my-secret", 1);
    assert_eq!(
        verify_session_token(&token, "my-secret"),
        Some("ops:alice".to_string())
    );
    for name in ["", ":", "a::b", "1:2", "download"] {
        let token = create_session_token_at(name, "s", 1, 0);
        assert_eq!(
            verify_session_token_at(&token, "s", 3600),
            Some(name.to_string())
        );
    }
}

#[test]
fn username_that_begins_like_a_download_never_verifies() {
    for name in ["download:", "download:a", "download:a:1700009999"] {
        let token = create_session_token_at(name, "s", 1, 0);
        assert_eq!(verify_session_token_at(&token, "s", 0), None);
    }
}

#[test]
fn signed_expiry_that_is_no_number_is_refused() {
    assert_eq!(
        verify_session_token_at(
            "YWRtaW46bm90YW51bWJlcjplMjk4MmU5ODhjZTY5YjZmNTQxN2RlNmEyMWVhMGIyNzFlNjY5YjcxMTAwZTAyZWI2YWM3NjNiM2E5OGRmYjFi",
            "my-secret",
            0
        ),
        None
    );
}

#[test]
fn signed_expiry_may_carry_a_plus() {
    assert_eq!(
        verify_session_token_at(
            "YWRtaW46KzE3MDAwMDM2MDA6NGRiMTFlNDYzNTY2NTE0MmE4NzRiNzFlYTFlZGNkZmJlNTNhMWY4YTM1MGViOTQ3Y2ViMzc0M2NhZjAzYTcxNg==",
            "my-secret",
            1_700_003_600
        ),
        Some("admin".to_string())
    );
}

#[test]
fn token_that_is_not_text_or_lacks_fields_is_refused() {
    assert_eq!(verify_session_token_at("/zoxOjI=", "my-secret", 0), None);
    assert_eq!(verify_session_token_at("YWRtaW46MQ==", "my-secret", 0), None);
    assert!(parse_session_fields(vec![0xff, b':', b'1', b':', b'2']).is_none());
    assert!(parse_session_fields(b"admin:1".to_vec()).is_none());
    assert!(parse_download_fields(b"download:a:1:p".to_vec()).is_none());
}

#[test]
fn session_fields_keep_further_colons_in_the_name() {
    let fields = parse_session_fields(b"u:1:s:t".to_vec()).unwrap();
    assert_eq!(fields.username, "u:1");
    assert_eq!(fields.expiry, "s");
    assert_eq!(fields.signature, "t");
}

#[test]
fn session_is_accepted_with_the_tag_in_hex() {
    let fields = parse_session_fields(b"u:10:00ff".to_vec()).unwrap();
    assert_eq!(
        accept_session(fields, &[0x00, 0xff], 10),
        Some("u".to_string())
    );
    let fields = parse_session_fields(b"u:10:00FF".to_vec()).unwrap();
    assert_eq!(accept_session(fields, &[0x00, 0xff], 10), None);
    let fields = parse_session_fields(b"u:10:00ff".to_vec()).unwrap();
    assert_eq!(accept_session(fields, &[0x00, 0xff], 11), None);
    let fields = parse_session_fields(b"u:-5:00ff".to_vec()).unwrap();
    assert_eq!(
        accept_session(fields, &[0x00, 0xff], -5),
        Some("u".to_string())
    );
}

#[test]
fn download_token_has_its_exact_form() {
    let token = create_download_token_at(
        "agent-a",
        "reports/final:v1.md",
        "secret",
        300,
        1_700_000_000,
    );
    assert_eq!(token, DOWNLOAD_TOKEN);
}

#[test]
fn download_token_expires_and_needs_its_secret() {
    let path = "reports/final:v1.md";
    assert!(verify_download_token_at(
        DOWNLOAD_TOKEN,
        "secret",
        "agent-a",
        path,
        1_700_000_300
    ));
    assert!(!verify_download_token_at(
        DOWNLOAD_TOKEN,
        "secret",
        "agent-a",
        path,
        1_700_000_301
    ));
    assert!(!verify_download_token_at(
        DOWNLOAD_TOKEN,
        "other",
        "agent-a",
        path,
        1_700_000_300
    ));
}

#[test]
fn download_path_is_written_in_the_url_alphabet() {
    let token = create_download_token_at("a", "~~?", "s", 1, 0);
    assert!(verify_download_token_at(&token, "s", "a", "~~?", 1));
    let fields = parse_download_fields(b"download:a:1:fn4_:00".to_vec()).unwrap();
    assert_eq!(fields.path, "fn4_");
    assert!(accept_download(
        &fields,
        Some(b"~~?".to_vec()),
        &[0],
        "a",
        "~~?",
        1
    ));
    assert!(!accept_download(&fields, None, &[0], "a", "~~?", 1));
    assert!(!accept_download(
        &fields,
        Some(vec![0xff]),
        &[0],
        "a",
        "~~?",
        1
    ));
}

#[test]
fn agent_with_a_colon_never_verifies() {
    let token = create_download_token_at("a:b", "p", "s", 1, 0);
    assert!(!verify_download_token_at(&token, "s", "a:b", "p", 0));
}

#[test]
fn tokens_of_one_kind_are_none_of_the_other() {
    assert_eq!(
        verify_session_token_at(DOWNLOAD_TOKEN, "secret", 1_700_000_000),
        None
    );
    assert!(!verify_download_token_at(
        ADMIN_TOKEN,
        "my-secret",
        "admin",
        "",
        1_700_000_000
    ));
}

#[test]
fn download_token_that_is_no_base64_is_refused() {
    assert!(!verify_download_token("!!!", "secret", "a", "b"));
    assert!(!verify_download_token("/zoxOjI=", "secret", "a", "b"));
}

#[test]
fn lifetime_beyond_half_the_range_counts_as_negative() {
    let token = create_download_token_at("a", "p", "s", u64::MAX, 10);
    assert!(verify_download_token_at(&token, "s", "a", "p", 9));
    assert!(!verify_download_token_at(&token, "s", "a", "p", 10));
}

#[test]
fn password_hash_under_a_salt_is_reproducible() {
    let salt = "AAAAAAAAAAAAAAAAAAAAAA";
    let hash = hash_password_with("secret123", salt);
    assert_eq!(hash, hash_password_with("secret123", salt));
    assert!(hash.starts_with("$argon2id$v=19$m=19456,t=2,p=1$AAAAAAAAAAAAAAAAAAAAAA$"));
    assert!(verify_password("secret123", &hash));
    assert!(!verify_password("secret124", &hash));
}

#[test]
fn password_is_accepted_on_a_positive_verdict_only() {
    assert!(password_accepted(Some(true)));
    assert!(!password_accepted(Some(false)));
    assert!(!password_accepted(None));
}

#[test]
fn changed_fields_break_the_signature() {
    let sig = "6dcb9402909e3af8dae59d525607881076316bec15bb68dabac8a99113337719";
    let tag = hex::decode(sig).unwrap();
    let fields = |text: String| parse_session_fields(text.into_bytes()).unwrap();
    assert_eq!(
        accept_session(fields(format!("admin:1700003600:{sig}")), &tag, 0),
        Some("admin".to_string())
    );
    assert_eq!(
        accept_session(fields(format!("admin:1700003600:{sig}0")), &tag, 0),
        None
    );
    assert_eq!(
        accept_session(fields("admin:1700003600:".to_string()), &tag, 0),
        None
    );
}

#[test]
fn user_name_that_reads_like_a_download_needs_a_path() {
    let token = create_session_token_at("download:agent-a:1700009999", "s", 1, 1_700_000_000);
    for path in ["", "1700003600", "reports/final:v1.md"] {
        assert!(!verify_download_token_at(
            &token,
            "s",
            "agent-a",
            path,
            1_700_000_000
        ));
    }
}

#[test]
fn hash_with_too_many_lanes_is_refused() {
    let salt = "AAAAAAAAAAAAAAAAAAAAAA";
    let out = "A".repeat(43);
    for lanes in ["536870912", "4294967295", "100000000", "99999999999"] {
        let stored = format!("$argon2id$v=19$m=19456,t=2,p={lanes}${salt}${out}");
        assert!(has_wide_lanes(&stored));
        assert!(!verify_password("x", &stored));
    }
    let stored = format!("$argon2id$v=19$m=19456,t=2,p=99999999${salt}${out}");
    assert!(!has_wide_lanes(&stored));
    assert!(!verify_password("x", &stored));
    assert!(!has_wide_lanes("p=12345678"));
    assert!(has_wide_lanes("p=p=123456789"));
    assert!(!has_wide_lanes("p=12345678x9"));
    assert!(!has_wide_lanes(""));
}

#[test]
fn hash_has_its_exact_form() {
    let salt = "AAAAAAAAAAAAAAAAAAAAAA";
    for password in ["", "secret123"] {
        let hash = hash_password_with(password, salt);
        let out = hash
            .strip_prefix("$argon2id$v=19$m=19456,t=2,p=1$AAAAAAAAAAAAAAAAAAAAAA$")
            .unwrap();
        assert_eq!(out.len(), 43);
        assert!(out
            .chars()
            .all(|c| c.is_ascii_alphanumeric() || c == '+' || c == '/'));
        assert!(!has_wide_lanes(&hash));
        assert!(verify_password(password, &hash));
        assert!(!verify_password("other", &hash));
    }
}

#[test]
fn different_salts_give_different_hashes() {
    assert_ne!(
        hash_password_with("same", "AAAAAAAAAAAAAAAAAAAAAA"),
        hash_password_with("same", "AAAAAAAAAAAAAAAAAAAAAQ")
    );
}
