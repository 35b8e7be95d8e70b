use cmd_auth::authenticate::TokenStore;
use cmd_auth::commands::Command;
use cmd_auth::commands::CommandKind;
use cmd_auth::commands::EchoCommand;
use cmd_auth::commands::EnterCommand;
use cmd_auth::commands::HelpCommand;
use cmd_auth::commands::PasswordCommand;
use cmd_auth::commands::SystemCommand;
use cmd_auth::commands::TokenCommand;
use cmd_auth::commands::get_all_commands;
use cmd_auth::commands::help_message;
use cmd_auth::commands::parse_command;
use cmd_auth::config::AuthConfig;
use cmd_auth::headers::extract_bearer_token;
use cmd_auth::headers::first_forwarded_ip;
use cmd_auth::registry::CommandRegistry;
use cmd_auth::registry::register_command;
use cmd_auth::response::CommandContext;
use cmd_auth::response::unauthorized_response;
use cmd_auth::response::unknown_command_response;
use cmd_auth::text::join_spaces;
use cmd_auth::text::split_whitespace;
use cmd_auth::text::to_lowercase;
use cmd_auth::text::trim;

fn cfg() -> AuthConfig {
    AuthConfig { password: "123".to_string(), token_expiration_seconds: 3600 }
}

fn ctx(text: &str, args: &[&str], authed: bool) -> CommandContext {
    CommandContext {
        command_text: text.to_string(),
        args: args.iter().map(|s| s.to_string()).collect(),
        is_authenticated: authed,
        client_ip: Some("1.2.3.4".to_string()),
    }
}

#[test]
fn parse_command_splits_and_lowercases_the_name() {
    let (name, args) = parse_command("  Echo  A  B ");
    assert_eq!(name, "echo");
    assert_eq!(args, vec!["A".to_string(), "B".to_string()]);
}

#[test]
fn parse_command_of_blank_text_is_empty() {
    let (name, args) = parse_command("   ");
    assert_eq!(name, "");
    assert!(args.is_empty());
}

#[test]
fn text_helpers() {
    assert_eq!(trim("  a b  "), "a b");
    assert_eq!(to_lowercase("MiXeD 123 !"), "mixed 123 !");
    assert_eq!(split_whitespace(" a\tbb  c "), vec!["a", "bb", "c"]);
    let parts: Vec<String> = vec!["a".to_string(), "bb".to_string()];
    assert_eq!(join_spaces(&parts), "a bb");
}

#[test]
fn resolution_is_alias_transparent() {
    let registry = CommandRegistry::standard();
    let by_name = registry.resolve("password");
    assert_eq!(by_name, Some(CommandKind::Password));
    assert_eq!(registry.resolve("pass"), by_name);
    assert_eq!(registry.resolve("p"), by_name);
    assert_eq!(registry.resolve("login"), by_name);
}

#[test]
fn resolution_is_case_insensitive() {
    let registry = CommandRegistry::standard();
    assert_eq!(registry.resolve("HELP"), Some(CommandKind::Help));
    assert_eq!(registry.resolve("Sys"), Some(CommandKind::System));
    assert_eq!(registry.resolve("nonsense"), None);
}

#[test]
fn shortcut_names_resolve_to_enter() {
    let registry = CommandRegistry::standard();
    assert_eq!(registry.resolve("home"), Some(CommandKind::Enter));
    assert_eq!(registry.resolve("git"), Some(CommandKind::Enter));
    assert_eq!(registry.resolve("tv"), Some(CommandKind::Enter));
    assert_eq!(registry.resolve("admin"), Some(CommandKind::Enter));
}

#[test]
fn list_unique_counts_commands_not_aliases() {
    let registry = CommandRegistry::standard();
    let unique = registry.list_unique();
    assert_eq!(unique.len(), 6);
    assert_eq!(
        unique,
        vec![
            CommandKind::Help,
            CommandKind::Password,
            CommandKind::System,
            CommandKind::Echo,
            CommandKind::Token,
            CommandKind::Enter,
        ]
    );
}

#[test]
fn registration_fails_loudly_on_collision() {
    let mut registry = CommandRegistry::new();
    assert!(register_command(&mut registry, CommandKind::Help));
    // a second registration collides on every name and changes nothing
    assert!(!register_command(&mut registry, CommandKind::Help));
    assert_eq!(registry.resolve("help"), Some(CommandKind::Help));
    assert!(register_command(&mut registry, CommandKind::Echo));
    assert_eq!(registry.resolve("e"), Some(CommandKind::Echo));
}

#[test]
fn all_commands_in_registration_order() {
    let kinds = get_all_commands();
    assert_eq!(kinds.len(), 6);
    assert_eq!(kinds[0], CommandKind::Help);
    assert_eq!(kinds[5], CommandKind::Enter);
}

#[test]
fn help_hides_gated_commands_from_unauthenticated_callers() {
    let text = help_message(false);
    assert!(text.contains("- help"));
    assert!(text.contains("- password"));
    assert!(text.contains("- echo"));
    assert!(text.contains("- enter"));
    assert!(!text.contains("system"));
    assert!(!text.contains("token"));
    assert!(!text.contains("[auth]"));
}

#[test]
fn help_shows_everything_to_authenticated_callers() {
    let text = help_message(true);
    assert!(text.contains("- system [auth]"));
    assert!(text.contains("- token [auth]"));
    assert!(text.contains("(aliases: h, ?)"));
    assert!(text.contains("\n[auth] marks commands that require authentication"));
}

#[test]
fn command_metadata() {
    assert_eq!(HelpCommand::new().name(), "help");
    assert_eq!(HelpCommand::new().aliases(), vec!["h", "?"]);
    assert!(!HelpCommand::new().needs_auth());
    assert!(SystemCommand::new().needs_auth());
    assert!(TokenCommand::new().needs_auth());
    assert!(!PasswordCommand::new().needs_auth());
    assert_eq!(EchoCommand::new().name(), "echo");
    assert_eq!(EnterCommand::new().aliases(), vec!["goto", "open"]);
}

#[test]
fn echo_joins_its_arguments() {
    let mut store = TokenStore::new();
    let resp = EchoCommand::new().execute(&mut store, &cfg(), 0, ctx("echo a b", &["a", "b"], false));
    assert!(resp.success);
    assert_eq!(resp.message, "echo: a b");
}

#[test]
fn echo_without_arguments_explains_usage() {
    let mut store = TokenStore::new();
    let resp = EchoCommand::new().execute(&mut store, &cfg(), 0, ctx("echo", &[], false));
    assert!(!resp.success);
    assert_eq!(resp.message, "usage: echo <text>");
}

#[test]
fn password_command_prompts() {
    let mut store = TokenStore::new();
    let resp = PasswordCommand::new().execute(&mut store, &cfg(), 0, ctx("password", &[], false));
    assert!(resp.success);
    assert_eq!(resp.request_password.as_deref(), Some("enter the password to authenticate"));
}

#[test]
fn enter_redirects_to_a_known_target() {
    let mut store = TokenStore::new();
    let resp = EnterCommand::new().execute(&mut store, &cfg(), 0, ctx("enter git", &["git"], false));
    assert!(resp.success);
    assert_eq!(resp.message, "redirecting to git...");
    let action = resp.action.expect("action");
    assert_eq!(action.action_type, "redirect");
    assert_eq!(action.target, "https://git.lycrex.com");
}

#[test]
fn enter_by_shortcut_name() {
    let mut store = TokenStore::new();
    let resp = EnterCommand::new().execute(&mut store, &cfg(), 0, ctx("home", &[], false));
    assert!(resp.success);
    assert_eq!(resp.action.expect("action").target, "https://lycrex.com");
}

#[test]
fn enter_without_target_explains_usage() {
    let mut store = TokenStore::new();
    let resp = EnterCommand::new().execute(&mut store, &cfg(), 0, ctx("enter", &[], false));
    assert!(!resp.success);
    assert!(resp.message.starts_with("usage: enter <target>\n"));
    assert!(resp.message.contains("- home: homepage"));
}

#[test]
fn enter_with_unknown_invoking_name_reports_it() {
    let mut store = TokenStore::new();
    let resp = EnterCommand::new().execute(&mut store, &cfg(), 0, ctx("admin", &[], false));
    assert!(!resp.success);
    assert!(resp.message.starts_with("unknown target: admin\n"));
}

#[test]
fn system_command_requires_authentication() {
    let mut store = TokenStore::new();
    let resp = SystemCommand::new().execute(&mut store, &cfg(), 0, ctx("system", &[], false));
    assert!(!resp.success);
    assert!(resp.request_password.is_some());
}

#[test]
fn system_command_reports_host_facts() {
    let mut store = TokenStore::new();
    let resp = SystemCommand::new().execute(&mut store, &cfg(), 7200, ctx("system", &[], true));
    assert!(resp.success);
    assert!(resp.message.starts_with("system information:\n- os: "));
    assert!(resp.message.contains("- cpu cores: "));
    assert!(resp.message.contains("- uptime: 2 h"));
}

#[test]
fn canned_responses() {
    let unknown = unknown_command_response("zap");
    assert!(!unknown.success);
    assert_eq!(unknown.message, "unknown command: zap\ntype 'help' to list available commands");
    let refused = unauthorized_response();
    assert!(!refused.success);
    assert_eq!(refused.request_password.as_deref(), Some("enter the password to gain access"));
}

#[test]
fn bearer_token_extraction() {
    assert_eq!(extract_bearer_token("Bearer abc123").as_deref(), Some("abc123"));
    assert_eq!(extract_bearer_token("Bearer "), Some(String::new()));
    assert_eq!(extract_bearer_token("Basic abc123"), None);
    assert_eq!(extract_bearer_token("bearer abc123"), None);
    assert_eq!(extract_bearer_token(""), None);
}

#[test]
fn forwarded_for_takes_the_first_address() {
    assert_eq!(first_forwarded_ip("1.2.3.4, 5.6.7.8"), "1.2.3.4");
    assert_eq!(first_forwarded_ip("  9.9.9.9  "), "9.9.9.9");
    assert_eq!(first_forwarded_ip("8.8.8.8"), "8.8.8.8");
    assert_eq!(first_forwarded_ip(",5.6.7.8"), "");
}
