//! Service configuration, loaded once at startup by the surrounding program
//! and handed to the core as plain values.

use vstd::prelude::*;

verus! {

pub struct Server {
    pub port: u16,
    /// Lifetime of an access token, in seconds.
    pub access_expire: i64,
    /// HMAC key for signing access tokens.
    pub access_secret: String,
}

pub struct Postgres {
    pub dsn: String,
}

pub struct Redis {
    pub url: String,
    /// Key of the sorted set that holds the delay queue.
    pub queue_name: String,
}

pub struct Telegram {
    /// Base URL of the bot provider, with a trailing slash.
    pub url: String,
    pub token: String,
}

pub struct Config {
    pub server: Server,
    pub postgres: Postgres,
    pub redis: Redis,
    pub telegram: Telegram,
}

} // verus!
