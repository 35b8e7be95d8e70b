use cmd_auth::authenticate::TokenStatus;
use cmd_auth::authenticate::TokenStore;
use cmd_auth::authenticate::authenticate_password;
use cmd_auth::authenticate::list_valid_tokens;
use cmd_auth::command::process_command_with_auth;
use cmd_auth::config::AuthConfig;

fn cfg() -> AuthConfig {
    AuthConfig { password: "secret".to_string(), token_expiration_seconds: 3600 }
}

fn issue(store: &mut TokenStore, now: u64) -> String {
    let resp = authenticate_password(store, &cfg(), now, "secret", Some("1.2.3.4"));
    resp.token.expect("token")
}

#[test]
fn empty_input_is_rejected_before_anything_else() {
    let mut store = TokenStore::new();
    store.issue("1.2.3.4", 0);
    let resp = process_command_with_auth(
        &mut store,
        &cfg(),
        9999,
        "   ",
        Some("secret"),
        Some("whatever"),
        Some("1.2.3.4"),
    );
    assert!(!resp.success);
    assert_eq!(resp.message, "enter a command");
    assert!(resp.token_status.is_none());
    // no token lookup was attempted: the store was not even swept
    assert_eq!(store.entries()[0].status, TokenStatus::Active);
}

#[test]
fn unknown_command_hints_at_help() {
    let mut store = TokenStore::new();
    let resp = process_command_with_auth(&mut store, &cfg(), 0, "Frobnicate now", None, None, None);
    assert!(!resp.success);
    assert_eq!(
        resp.message,
        "unknown command: frobnicate now\ntype 'help' to list available commands"
    );
    assert!(resp.token_status.is_none());
}

#[test]
fn help_unauthenticated_lists_only_open_commands() {
    let mut store = TokenStore::new();
    let resp = process_command_with_auth(&mut store, &cfg(), 0, "help", None, None, None);
    assert!(resp.success);
    assert!(resp.message.contains("- help"));
    assert!(resp.message.contains("- password"));
    assert!(resp.message.contains("- echo"));
    assert!(resp.message.contains("- enter"));
    assert!(!resp.message.contains("system"));
    assert!(!resp.message.contains("token"));
}

#[test]
fn help_authenticated_lists_gated_commands() {
    let mut store = TokenStore::new();
    let token = issue(&mut store, 0);
    let resp = process_command_with_auth(
        &mut store,
        &cfg(),
        10,
        "help",
        None,
        Some(&token),
        Some("1.2.3.4"),
    );
    assert!(resp.success);
    assert!(resp.message.contains("- system [auth]"));
    assert!(resp.message.contains("- token [auth]"));
    let ts = resp.token_status.expect("token status");
    assert!(ts.valid);
    assert!(!ts.expired);
}

#[test]
fn invalid_token_discards_the_password() {
    // a request with a forged token AND the correct password stays
    // unauthenticated: the gated command is refused
    let mut store = TokenStore::new();
    let resp = process_command_with_auth(
        &mut store,
        &cfg(),
        0,
        "system",
        Some("secret"),
        Some("forged-token"),
        Some("1.2.3.4"),
    );
    assert!(!resp.success);
    assert_eq!(resp.message, "you are not allowed to run this command");
    assert_eq!(resp.request_password.as_deref(), Some("enter the password to gain access"));
    let ts = resp.token_status.expect("token status");
    assert!(!ts.valid);
    assert!(!ts.expired);
}

#[test]
fn expired_token_reports_summary() {
    let mut store = TokenStore::new();
    let token = issue(&mut store, 0);
    let resp = process_command_with_auth(
        &mut store,
        &cfg(),
        3700,
        "system",
        None,
        Some(&token),
        Some("1.2.3.4"),
    );
    assert!(!resp.success);
    let ts = resp.token_status.expect("token status");
    assert!(!ts.valid);
    assert!(ts.expired);
    assert_eq!(ts.expired_for.as_deref(), Some("1m40s"));
}

#[test]
fn password_alone_does_not_authenticate_dispatch() {
    let mut store = TokenStore::new();
    let resp = process_command_with_auth(
        &mut store,
        &cfg(),
        0,
        "system",
        Some("secret"),
        None,
        Some("1.2.3.4"),
    );
    assert!(!resp.success);
    assert!(resp.request_password.is_some());
    assert!(resp.token_status.is_none());
}

#[test]
fn dispatch_lowercases_the_whole_input() {
    let mut store = TokenStore::new();
    let resp = process_command_with_auth(&mut store, &cfg(), 0, "Echo Hello World", None, None, None);
    assert!(resp.success);
    assert_eq!(resp.message, "echo: hello world");
}

#[test]
fn token_revoke_by_index_scenario() {
    // exactly one issued token; "token revoke 1" removes it
    let mut store = TokenStore::new();
    let token = issue(&mut store, 0);
    let resp = process_command_with_auth(
        &mut store,
        &cfg(),
        10,
        "token revoke 1",
        None,
        Some(&token),
        Some("1.2.3.4"),
    );
    assert!(resp.success);
    assert_eq!(resp.message, "revoked token #1");
    assert_eq!(list_valid_tokens(&mut store, &cfg(), 10).len(), 0);
}

#[test]
fn token_revoke_by_literal_value() {
    let mut store = TokenStore::new();
    let auth_token = issue(&mut store, 0);
    let other = store.issue("9.9.9.9", 50);
    let resp = process_command_with_auth(
        &mut store,
        &cfg(),
        60,
        &format!("token revoke {}", other),
        None,
        Some(&auth_token),
        Some("1.2.3.4"),
    );
    assert!(resp.success);
    assert_eq!(resp.message, "revoked token: fake-***");
    assert_eq!(store.len(), 1);
}

#[test]
fn token_revoke_out_of_range_index_falls_back_to_literal() {
    let mut store = TokenStore::new();
    let token = issue(&mut store, 0);
    let resp = process_command_with_auth(
        &mut store,
        &cfg(),
        10,
        "token revoke 5",
        None,
        Some(&token),
        Some("1.2.3.4"),
    );
    assert!(!resp.success);
    assert_eq!(resp.message, "no such token; nothing was revoked");
    assert_eq!(store.len(), 1);
}

#[test]
fn token_with_unknown_subcommand_shows_usage() {
    let mut store = TokenStore::new();
    let token = issue(&mut store, 0);
    let resp = process_command_with_auth(
        &mut store,
        &cfg(),
        10,
        "token frob",
        None,
        Some(&token),
        Some("1.2.3.4"),
    );
    assert!(!resp.success);
    assert!(resp.message.starts_with("unknown token subcommand"));
}

#[test]
fn token_list_shows_masked_values() {
    let mut store = TokenStore::new();
    let token = issue(&mut store, 1234567);
    let resp = process_command_with_auth(
        &mut store,
        &cfg(),
        1234577,
        "token",
        None,
        Some(&token),
        Some("1.2.3.4"),
    );
    assert!(resp.success);
    assert!(resp.message.starts_with("total 1 tokens:\n\n"));
    assert!(resp.message.contains("1. token: fake-***"));
    assert!(!resp.message.contains(&token));
    assert!(resp.message.contains("revoke: token revoke 1"));
}

#[test]
fn token_list_empty() {
    let mut store = TokenStore::new();
    let token = issue(&mut store, 0);
    let resp_revoke = process_command_with_auth(
        &mut store,
        &cfg(),
        10,
        "token revoke 1",
        None,
        Some(&token),
        Some("1.2.3.4"),
    );
    assert!(resp_revoke.success);
    // the token is gone now, so a fresh authentication is needed
    let token2 = issue(&mut store, 20);
    let resp = process_command_with_auth(
        &mut store,
        &cfg(),
        30,
        "token revoke 1",
        None,
        Some(&token2),
        Some("1.2.3.4"),
    );
    assert!(resp.success);
    let resp_list = process_command_with_auth(
        &mut store,
        &cfg(),
        40,
        "token",
        None,
        None,
        Some("1.2.3.4"),
    );
    // unauthenticated again: listing is refused
    assert!(!resp_list.success);
}

#[test]
fn gated_shortcut_is_open_because_targets_are_not_gated() {
    let mut store = TokenStore::new();
    let resp = process_command_with_auth(&mut store, &cfg(), 0, "tv", None, None, None);
    assert!(resp.success);
    assert_eq!(resp.action.expect("action").target, "https://tv.lycrex.com");
}
