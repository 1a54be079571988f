//! Process-wide configuration, constructed once at startup and passed
//! explicitly to whatever needs it. Reading it from the environment is
//! the application shell's business.

use vstd::prelude::*;

verus! {

#[derive(Debug, Clone)]
pub struct RedisConfig {
    pub cache_url: String,
    pub sessions_url: String,
    pub pubsub_url: String,
}

#[derive(Debug, Clone)]
pub struct PostgresConfig {
    pub host: String,
    pub user: String,
    pub database: String,
    pub connections: u32,
    pub password: String,
}

#[derive(Debug, Clone)]
pub struct Config {
    pub secret_auth_key: String,
    pub secret_refresh_key: String,
    pub signature_key: String,
    pub url: String,
    pub server_id: u8,
    pub total_servers: u8,
    pub cdn_secret_key: String,
    pub cdn_secret_key_n: String,
    pub vapid_secret: String,
    pub vapid_pub: String,
    pub brevo_api_key: String,
}

} // verus!
