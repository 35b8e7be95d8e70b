use cmd_auth::authenticate::TokenStatus;
use cmd_auth::authenticate::TokenStore;
use cmd_auth::authenticate::ValidationResult;
use cmd_auth::authenticate::authenticate_password;
use cmd_auth::authenticate::check_token;
use cmd_auth::authenticate::format_duration;
use cmd_auth::authenticate::get_token_details;
use cmd_auth::authenticate::get_token_status;
use cmd_auth::authenticate::list_valid_tokens;
use cmd_auth::authenticate::mask_token;
use cmd_auth::authenticate::revoke_token;
use cmd_auth::authenticate::validate_token;
use cmd_auth::config::AuthConfig;
use cmd_auth::host::current_time_seconds;
use cmd_auth::text::parse_dec;
use cmd_auth::text::u64_to_string;

fn cfg_with_ttl(ttl: u64) -> AuthConfig {
    AuthConfig { password: "123".to_string(), token_expiration_seconds: ttl }
}

#[test]
fn token_lifecycle_scenario() {
    // TTL = 10 s; issue at t = 0 bound to 1.2.3.4.
    let mut store = TokenStore::new();
    let token = store.issue("1.2.3.4", 0);
    assert_eq!(store.validate(&token, Some("1.2.3.4"), 5, 10), ValidationResult::Valid);
    assert_eq!(store.validate(&token, Some("9.9.9.9"), 5, 10), ValidationResult::IpMismatch);
    assert_eq!(store.validate(&token, Some("1.2.3.4"), 15, 10), ValidationResult::Expired(5));
    // once expired, the address no longer matters: the two checks are
    // independent axes, with expiry reported first
    assert_eq!(store.validate(&token, Some("9.9.9.9"), 20, 10), ValidationResult::Expired(10));
}

#[test]
fn expiry_at_exact_ttl_boundary() {
    let mut store = TokenStore::new();
    let token = store.issue("1.2.3.4", 0);
    assert_eq!(store.validate(&token, Some("1.2.3.4"), 9, 10), ValidationResult::Valid);
    let mut store2 = TokenStore::new();
    let token2 = store2.issue("1.2.3.4", 0);
    assert_eq!(store2.validate(&token2, Some("1.2.3.4"), 10, 10), ValidationResult::Expired(0));
}

#[test]
fn expiry_is_one_way() {
    let mut store = TokenStore::new();
    let token = store.issue("1.2.3.4", 0);
    assert_eq!(store.validate(&token, Some("1.2.3.4"), 15, 10), ValidationResult::Expired(5));
    // A later check at an earlier time finds the token still expired.
    assert_eq!(store.validate(&token, Some("1.2.3.4"), 5, 10), ValidationResult::Expired(5));
}

#[test]
fn validate_without_address_skips_ip_check() {
    let mut store = TokenStore::new();
    let token = store.issue("1.2.3.4", 0);
    assert_eq!(store.validate(&token, None, 5, 10), ValidationResult::Valid);
}

#[test]
fn validate_unknown_value() {
    let mut store = TokenStore::new();
    assert_eq!(store.validate("no-such-token", None, 5, 10), ValidationResult::NotFound);
}

#[test]
fn revoke_is_idempotent() {
    let mut store = TokenStore::new();
    let token = store.issue("1.2.3.4", 0);
    assert!(revoke_token(&mut store, &token));
    assert!(!revoke_token(&mut store, &token));
    assert_eq!(store.len(), 0);
}

#[test]
fn revoke_works_on_expired_tokens() {
    let mut store = TokenStore::new();
    let token = store.issue("1.2.3.4", 0);
    let cfg = cfg_with_ttl(10);
    assert!(!validate_token(&mut store, &cfg, 100, &token, None));
    assert!(revoke_token(&mut store, &token));
    assert_eq!(store.len(), 0);
}

#[test]
fn authenticate_with_wrong_password() {
    let mut store = TokenStore::new();
    let cfg = cfg_with_ttl(3600);
    let resp = authenticate_password(&mut store, &cfg, 0, "wrong", Some("1.2.3.4"));
    assert!(!resp.success);
    assert!(resp.token.is_none());
    assert_eq!(resp.message, "wrong password");
    assert_eq!(store.len(), 0);
}

#[test]
fn authenticate_with_correct_password() {
    let mut store = TokenStore::new();
    let cfg = cfg_with_ttl(3600);
    let resp = authenticate_password(&mut store, &cfg, 1234, "123", Some("1.2.3.4"));
    assert!(resp.success);
    let token = resp.token.expect("token expected");
    assert_eq!(token, "fake-token-1234");
    assert!(resp.message.starts_with("password accepted\ntoken: "));
    assert!(resp.message.contains("\nexpires at: "));
    assert_eq!(store.len(), 1);
    assert!(validate_token(&mut store, &cfg, 1300, &token, Some("1.2.3.4")));
}

#[test]
fn authenticate_without_address_binds_unknown() {
    let mut store = TokenStore::new();
    let cfg = cfg_with_ttl(3600);
    let resp = authenticate_password(&mut store, &cfg, 7, "123", None);
    assert!(resp.success);
    let entries = store.entries();
    assert_eq!(entries.len(), 1);
    assert_eq!(entries[0].ip_address, "unknown");
    assert_eq!(entries[0].created_at, 7);
    assert_eq!(entries[0].status, TokenStatus::Active);
}

#[test]
fn check_token_reports_details() {
    let mut store = TokenStore::new();
    let cfg = cfg_with_ttl(10);
    let token = store.issue("1.2.3.4", 0);
    let info = check_token(&mut store, &cfg, 5, &token, Some("1.2.3.4")).expect("info");
    assert!(info.is_valid);
    assert!(!info.is_expired);
    assert_eq!(info.expired_time, None);
    assert_eq!(info.expires_at, Some(10));
    assert_eq!(info.ip_address, "1.2.3.4");
    let late = check_token(&mut store, &cfg, 17, &token, Some("1.2.3.4")).expect("info");
    assert!(!late.is_valid);
    assert!(late.is_expired);
    assert_eq!(late.expired_time.as_deref(), Some("7s"));
}

#[test]
fn check_token_rejects_empty_value() {
    let mut store = TokenStore::new();
    let cfg = cfg_with_ttl(10);
    store.issue("1.2.3.4", 0);
    assert!(check_token(&mut store, &cfg, 100, "", Some("1.2.3.4")).is_none());
    // the empty value never triggers a sweep
    assert_eq!(store.entries()[0].status, TokenStatus::Active);
}

#[test]
fn get_token_status_ignores_address() {
    let mut store = TokenStore::new();
    let cfg = cfg_with_ttl(10);
    let token = store.issue("1.2.3.4", 0);
    let info = get_token_status(&mut store, &cfg, 5, &token).expect("info");
    assert!(info.is_valid);
}

#[test]
fn list_reports_active_and_expired() {
    let mut store = TokenStore::new();
    let cfg = cfg_with_ttl(10);
    let early = store.issue("1.1.1.1", 0);
    let late = store.issue("2.2.2.2", 100);
    let listed = list_valid_tokens(&mut store, &cfg, 105);
    assert_eq!(listed.len(), 2);
    assert_eq!(listed[0].0, early);
    assert_eq!(listed[0].1, "1.1.1.1");
    assert_eq!(listed[0].2, "expired 1m35s");
    assert!(listed[0].3);
    assert_eq!(listed[1].0, late);
    assert_eq!(listed[1].2, "active");
    assert!(!listed[1].3);
}

#[test]
fn details_mask_and_status() {
    let mut store = TokenStore::new();
    let cfg = cfg_with_ttl(10);
    let token = store.issue("1.2.3.4", 1234567);
    let details = get_token_details(&mut store, &cfg, 1234568);
    assert_eq!(details.len(), 1);
    assert_eq!(details[0].token, token);
    assert_eq!(details[0].token_masked, mask_token(&token));
    assert_ne!(details[0].token_masked, token);
    assert_eq!(details[0].status, "valid");
    assert!(!details[0].is_expired);
}

#[test]
fn issuing_twice_in_one_second_keeps_one_entry() {
    let mut store = TokenStore::new();
    let a = store.issue("1.1.1.1", 42);
    let b = store.issue("2.2.2.2", 42);
    assert_eq!(a, b);
    assert_eq!(store.len(), 1);
    assert_eq!(store.entries()[0].ip_address, "2.2.2.2");
}

#[test]
fn format_duration_units() {
    assert_eq!(format_duration(0), "0s");
    assert_eq!(format_duration(59), "59s");
    assert_eq!(format_duration(61), "1m1s");
    assert_eq!(format_duration(3600), "1h0m0s");
    assert_eq!(format_duration(3661), "1h1m1s");
    assert_eq!(format_duration(86461), "24h1m1s");
}

#[test]
fn mask_token_keeps_short_values() {
    assert_eq!(mask_token("short"), "short");
    assert_eq!(mask_token("0123456789"), "0123456789");
    assert_eq!(mask_token("0123456789a"), "01234***6789a");
    assert_eq!(mask_token("fake-token-1234"), "fake-***-1234");
}

#[test]
fn decimal_rendering_and_parsing() {
    assert_eq!(u64_to_string(0), "0");
    assert_eq!(u64_to_string(907), "907");
    assert_eq!(u64_to_string(u64::MAX), "18446744073709551615");
    assert_eq!(parse_dec("0"), Some(0));
    assert_eq!(parse_dec("007"), Some(7));
    assert_eq!(parse_dec("18446744073709551615"), Some(u64::MAX));
    assert_eq!(parse_dec("18446744073709551616"), None);
    assert_eq!(parse_dec(""), None);
    assert_eq!(parse_dec("12a"), None);
    assert_eq!(parse_dec("-1"), None);
}

#[test]
fn clock_reads_a_plausible_time() {
    // seconds since the Unix epoch, well past the year 2001
    assert!(current_time_seconds() > 1_000_000_000);
}
