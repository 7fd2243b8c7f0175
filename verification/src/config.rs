//! The bot's configuration, read from the values of its environment
//! variables, and the settings stored beside the subscriptions.
use vstd::prelude::*;
use crate::num::{parse_i64_spec, parse_unsigned, parse_i64_chars, parse_unsigned_chars};
use crate::text::{chars_of, str_eq, trim, trim_chars};

verus! {

/// The bot's configuration.
#[derive(Debug, Clone)]
pub struct Config {
    /// The bot's token from BotFather.
    pub bot_token: String,
    /// The administrator's id; without it the first user of `/admin` becomes
    /// the administrator.
    pub admin_id: Option<i64>,
    /// The channel releases go to; without it `/bind` binds one.
    pub channel_id: Option<i64>,
    /// Minutes between polls.
    pub fetch_interval_min: u64,
    /// Where the database is.
    pub db_path: String,
    /// The log filter.
    pub log_level: String,
    /// The TMDB key for posters, when one is set.
    pub tmdb_api_key: Option<String>,
}

/// Why no configuration could be made.
#[derive(Debug, Clone, Copy, PartialEq, Eq, Structural)]
pub enum ConfigError {
    /// `TELEGRAM_BOT_TOKEN` is not set.
    MissingToken,
}

impl ConfigError {
    /// The message that names the missing variable.
    pub fn message(&self) -> (r: &'static str)
        ensures
            r@ == "缺少环境变量 TELEGRAM_BOT_TOKEN（BotFather 获取）"@,
    {
        "缺少环境变量 TELEGRAM_BOT_TOKEN（BotFather 获取）"
    }
}

/// A number read from a setting's text: the text without surrounding
/// whitespace, as `i64::from_str` reads it.
pub open spec fn trimmed_i64(s: Seq<char>) -> Option<i64> {
    match parse_i64_spec(trim(s)) {
        Some(v) => Some(v as i64),
        None => None,
    }
}

pub open spec fn opt_trimmed_i64(s: Option<String>) -> Option<i64> {
    match s {
        Some(t) => trimmed_i64(t@),
        None => None,
    }
}

/// The polling interval from its variable: a whole number of minutes, 5 when
/// it is unset or not one.
pub open spec fn interval_of(s: Option<String>) -> u64 {
    match s {
        Some(t) => match parse_unsigned(trim(t@), u64::MAX as nat) {
            Some(v) => v as u64,
            None => 5,
        },
        None => 5,
    }
}

/// What a configuration holds, given the values of `TELEGRAM_BOT_TOKEN`,
/// `ADMIN_ID`, `CHANNEL_ID`, `FETCH_INTERVAL_MIN`, `DB_PATH`, `RUST_LOG` and
/// `TMDB_API_KEY` (none where unset).
pub open spec fn spec_config(
    token: Option<String>,
    admin: Option<String>,
    channel: Option<String>,
    interval: Option<String>,
    db_path: Option<String>,
    log: Option<String>,
    tmdb: Option<String>,
    c: Config,
) -> bool {
    &&& token matches Some(t) && c.bot_token@ == t@
    &&& c.admin_id == opt_trimmed_i64(admin)
    &&& c.channel_id == opt_trimmed_i64(channel)
    &&& c.fetch_interval_min == interval_of(interval)
    &&& c.db_path@ == (match db_path {
        Some(p) => p@,
        None => "data/btboy.db"@,
    })
    &&& c.log_level@ == (match log {
        Some(l) => l@,
        None => "info"@,
    })
    &&& c.tmdb_api_key.deep_view() == (match tmdb {
        Some(k) => if k@.len() > 0 {
            Some(k@)
        } else {
            None
        },
        None => None,
    })
}

/// A number in a setting's text, surrounding whitespace ignored.
pub fn read_i64(s: &str) -> (r: Option<i64>)
    ensures
        r == trimmed_i64(s@),
{
    let t = trim_chars(chars_of(s).as_slice());
    match parse_i64_chars(t.as_slice()) {
        Some(v) => Some(v),
        None => None,
    }
}

fn read_opt_i64(s: &Option<String>) -> (r: Option<i64>)
    ensures
        r == opt_trimmed_i64(*s),
{
    match s {
        Some(t) => read_i64(t.as_str()),
        None => None,
    }
}

impl Config {
    /// The configuration from the values of its variables: an error when the
    /// token is missing.
    pub fn from_vars(
        token: Option<String>,
        admin: Option<String>,
        channel: Option<String>,
        interval: Option<String>,
        db_path: Option<String>,
        log: Option<String>,
        tmdb: Option<String>,
    ) -> (r: Result<Config, ConfigError>)
        ensures
            r is Err <==> token is None,
            r matches Ok(c) ==> spec_config(token, admin, channel, interval, db_path, log, tmdb, c),
            r matches Err(e) ==> e == ConfigError::MissingToken,
    {
        let bot_token = match token {
            Some(t) => t,
            None => return Err(ConfigError::MissingToken),
        };
        let admin_id = read_opt_i64(&admin);
        let channel_id = read_opt_i64(&channel);
        let fetch_interval_min: u64 = match &interval {
            Some(t) => {
                let v = trim_chars(chars_of(t.as_str()).as_slice());
                match parse_unsigned_chars(v.as_slice(), u64::MAX) {
                    Some(n) => n,
                    None => 5,
                }
            },
            None => 5,
        };
        let db_path = match db_path {
            Some(p) => p,
            None => "data/btboy.db".to_owned(),
        };
        let log_level = match log {
            Some(l) => l,
            None => "info".to_owned(),
        };
        let tmdb_api_key = match tmdb {
            Some(k) => if k.as_str().is_empty() {
                None
            } else {
                Some(k)
            },
            None => None,
        };
        Ok(Config { bot_token, admin_id, channel_id, fetch_interval_min, db_path, log_level, tmdb_api_key })
    }
}

/// An id from the configuration, else the one stored by a command.
pub open spec fn spec_resolve_id(configured: Option<i64>, stored: Option<Seq<char>>) -> Option<i64> {
    match configured {
        Some(v) => Some(v),
        None => match stored {
            Some(s) => trimmed_i64(s),
            None => None,
        },
    }
}

/// The administrator or the channel: the configured id first, then the one
/// stored by `/admin` or `/bind`.
pub fn resolve_id(configured: Option<i64>, stored: Option<&str>) -> (r: Option<i64>)
    ensures
        r == spec_resolve_id(
            configured,
            match stored {
                Some(s) => Some(s@),
                None => None,
            },
        ),
{
    match configured {
        Some(v) => Some(v),
        None => match stored {
            Some(s) => read_i64(s),
            None => None,
        },
    }
}

/// A stored switch: on exactly when its text is `1`, the default when none
/// is stored.
pub fn setting_bool(stored: Option<&str>, default: bool) -> (r: bool)
    ensures
        r == match stored {
            Some(s) => s@ == "1"@,
            None => default,
        },
{
    match stored {
        Some(s) => str_eq(s, "1"),
        None => default,
    }
}

/// A stored number: its text read as a number, the default when none is
/// stored or it is not one.
pub fn setting_int(stored: Option<&str>, default: i64) -> (r: i64)
    ensures
        r == match stored {
            Some(s) => match trimmed_i64(s@) {
                Some(v) => v,
                None => default,
            },
            None => default,
        },
{
    match stored {
        Some(s) => match read_i64(s) {
            Some(v) => v,
            None => default,
        },
        None => default,
    }
}

} // verus!
