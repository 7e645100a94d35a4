//! Process settings as plain values, and the precedence rule that merges
//! environment-supplied values over file-supplied ones. Reading the file
//! and the environment happens outside the core; the merge itself is the
//! logic and is specified here.

use std::collections::HashMap;
use vstd::prelude::*;

use crate::text::{parseable_i32, parse_i32, spec_i32_val};

verus! {

/// Settings of the dynamic-DNS updater.
pub struct Afraid {
    pub token: String,
    pub url: String,
    pub path: String,
}

/// Settings of the relational store.
pub struct PostgreSQL {
    pub host: String,
    pub port: i32,
    pub user: String,
    pub password: String,
    pub db: String,
}

/// Settings of the operator channel: chat ids allowed to talk to the bot,
/// and its token.
pub struct Telegram {
    pub allowed: HashMap<i64, String>,
    pub token: String,
}

/// Bot settings.
pub struct Bot {
    pub telegram: Telegram,
}

/// The whole application configuration.
pub struct App {
    pub afraid: Afraid,
    pub postgresql: PostgreSQL,
    pub bot: Bot,
}

/// The values the environment may supply. `None` means the variable is
/// unset and the file's value stands.
pub struct EnvOverrides {
    pub afraid_token: Option<String>,
    pub postgresql_host: Option<String>,
    pub postgresql_port: Option<String>,
    pub postgresql_user: Option<String>,
    pub postgresql_password: Option<String>,
    pub postgresql_db: Option<String>,
    pub telegram_allowed: Option<HashMap<i64, String>>,
    pub telegram_token: Option<String>,
}

/// What a port text means: the signed integer it denotes, or the default
/// `5432` exactly when it does not parse as an `i32`.
pub open spec fn spec_port_of(s: Seq<char>) -> int {
    if parseable_i32(s) {
        spec_i32_val(s)
    } else {
        5432
    }
}

/// Read a port number, falling back to the default `5432` only on parse
/// failure.
pub fn parse_port(s: &str) -> (r: i32)
    ensures
        r == spec_port_of(s@),
{
    match parse_i32(s) {
        Some(v) => v,
        None => 5432,
    }
}

impl App {
    /// Merge environment-supplied values over this configuration: every
    /// variable that is set wins over the file's value, and an unset one
    /// changes nothing.
    pub fn override_with(self, env: EnvOverrides) -> (r: App)
        ensures
            r.afraid.token@ == (match env.afraid_token {
                Option::Some(t) => t@,
                Option::None => self.afraid.token@,
            }),
            r.afraid.url == self.afraid.url,
            r.afraid.path == self.afraid.path,
            r.postgresql.host@ == (match env.postgresql_host {
                Option::Some(h) => h@,
                Option::None => self.postgresql.host@,
            }),
            r.postgresql.port == (match env.postgresql_port {
                Option::Some(p) => spec_port_of(p@),
                Option::None => self.postgresql.port as int,
            }),
            r.postgresql.user@ == (match env.postgresql_user {
                Option::Some(u) => u@,
                Option::None => self.postgresql.user@,
            }),
            r.postgresql.password@ == (match env.postgresql_password {
                Option::Some(p) => p@,
                Option::None => self.postgresql.password@,
            }),
            r.postgresql.db@ == (match env.postgresql_db {
                Option::Some(d) => d@,
                Option::None => self.postgresql.db@,
            }),
            r.bot.telegram.allowed == (match env.telegram_allowed {
                Option::Some(a) => a,
                Option::None => self.bot.telegram.allowed,
            }),
            r.bot.telegram.token@ == (match env.telegram_token {
                Option::Some(t) => t@,
                Option::None => self.bot.telegram.token@,
            }),
    {
        let mut app = self;
        match env.afraid_token {
            Some(t) => {
                app.afraid.token = t;
            },
            None => {},
        }
        match env.postgresql_host {
            Some(h) => {
                app.postgresql.host = h;
            },
            None => {},
        }
        match env.postgresql_port {
            Some(p) => {
                app.postgresql.port = parse_port(p.as_str());
            },
            None => {},
        }
        match env.postgresql_user {
            Some(u) => {
                app.postgresql.user = u;
            },
            None => {},
        }
        match env.postgresql_password {
            Some(p) => {
                app.postgresql.password = p;
            },
            None => {},
        }
        match env.postgresql_db {
            Some(d) => {
                app.postgresql.db = d;
            },
            None => {},
        }
        match env.telegram_allowed {
            Some(a) => {
                app.bot.telegram.allowed = a;
            },
            None => {},
        }
        match env.telegram_token {
            Some(t) => {
                app.bot.telegram.token = t;
            },
            None => {},
        }
        app
    }

    /// Build a configuration from environment values alone, with the
    /// defaults of the file-less path: empty dynamic-DNS fields and the
    /// default port when none parses.
    pub fn from_values(
        afraid_token: String,
        host: String,
        port_text: Option<String>,
        user: String,
        password: String,
        db: String,
        allowed: HashMap<i64, String>,
        telegram_token: String,
    ) -> (r: App)
        ensures
            r.afraid.token == afraid_token,
            r.afraid.url@.len() == 0,
            r.afraid.path@.len() == 0,
            r.postgresql.host == host,
            r.postgresql.port == (match port_text {
                Option::Some(p) => spec_port_of(p@),
                Option::None => 5432int,
            }),
            r.postgresql.user == user,
            r.postgresql.password == password,
            r.postgresql.db == db,
            r.bot.telegram.allowed == allowed,
            r.bot.telegram.token == telegram_token,
    {
        let port = match port_text {
            Some(p) => parse_port(p.as_str()),
            None => 5432,
        };
        App {
            afraid: Afraid { token: afraid_token, url: String::new(), path: String::new() },
            postgresql: PostgreSQL { host, port, user, password, db },
            bot: Bot { telegram: Telegram { allowed, token: telegram_token } },
        }
    }
}

} // verus!
