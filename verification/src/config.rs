//! Configuration data consumed by the service. The authentication settings
//! are read fresh from the current configuration value on every operation
//! that needs them, so an externally updated configuration takes effect
//! immediately.

use vstd::prelude::*;

verus! {

/// Authentication settings: the shared secret and the token time-to-live.
#[derive(Clone, Debug)]
pub struct AuthConfig {
    pub password: String,
    pub token_expiration_seconds: u64,
}

impl Default for AuthConfig {
    fn default() -> (c: Self)
        ensures
            c.password@ == "123"@,
            c.token_expiration_seconds == 3600,
    {
        AuthConfig { password: "123".to_owned(), token_expiration_seconds: 3600 }
    }
}

/// Which visitor statistics the front end is asked to show.
#[derive(Clone, Copy, Debug, PartialEq, Eq, Structural)]
pub struct VisitorStatsConfig {
    pub enabled: bool,
    pub show_total_visits: bool,
    pub show_unique_ips: bool,
    pub show_personal_visits: bool,
}

impl Default for VisitorStatsConfig {
    fn default() -> (c: Self)
        ensures
            c.enabled,
            c.show_total_visits,
            c.show_unique_ips,
            c.show_personal_visits,
    {
        VisitorStatsConfig {
            enabled: true,
            show_total_visits: true,
            show_unique_ips: true,
            show_personal_visits: true,
        }
    }
}

/// The server-wide configuration block.
#[derive(Clone, Debug)]
pub struct ServerConfig {
    pub name: String,
    pub status: String,
    pub message: String,
    pub title: String,
    pub subtitle: String,
    pub port: u16,
    pub show_visitor_stats: VisitorStatsConfig,
    pub auth: AuthConfig,
}

impl Default for ServerConfig {
    fn default() -> (c: Self)
        ensures
            c.name@ == "LycreX"@,
            c.status@ == "running"@,
            c.message@ == "Server is running"@,
            c.title@ == "LycreX"@,
            c.subtitle@ == "> programming for acg"@,
            c.port == 1111,
            c.show_visitor_stats.enabled,
            c.show_visitor_stats.show_total_visits,
            c.show_visitor_stats.show_unique_ips,
            c.show_visitor_stats.show_personal_visits,
            c.auth.password@ == "123"@,
            c.auth.token_expiration_seconds == 3600,
    {
        ServerConfig {
            name: "LycreX".to_owned(),
            status: "running".to_owned(),
            message: "Server is running".to_owned(),
            title: "LycreX".to_owned(),
            subtitle: "> programming for acg".to_owned(),
            port: 1111,
            show_visitor_stats: VisitorStatsConfig::default(),
            auth: AuthConfig::default(),
        }
    }
}

/// The whole configuration file.
#[derive(Clone, Debug)]
pub struct Config {
    pub server: ServerConfig,
}

impl Default for Config {
    fn default() -> (c: Self)
        ensures
            c.server.auth.password@ == "123"@,
            c.server.auth.token_expiration_seconds == 3600,
    {
        Config { server: ServerConfig::default() }
    }
}

} // verus!
