use btboy::config::{resolve_id, setting_bool, setting_int, Config, ConfigError};
use btboy::timing::{days_between, days_since, poll_wait_secs, refresh_due};
use btboy::tmdb::{hit_of, hits_of, search_lang, search_url, TmdbResult};

fn s(v: &str) -> Option<String> {
    Some(v.to_string())
}

#[test]
fn configuration_from_variables() {
    let c = Config::from_vars(s("tok"), s(" 42 "), s("x"), s(" 10 "), None, None, s("")).unwrap();
    assert_eq!(c.bot_token, "tok");
    assert_eq!(c.admin_id, Some(42));
    assert_eq!(c.channel_id, None);
    assert_eq!(c.fetch_interval_min, 10);
    assert_eq!(c.db_path, "data/btboy.db");
    assert_eq!(c.log_level, "info");
    assert_eq!(c.tmdb_api_key, None);
    let c = Config::from_vars(s("tok"), None, s("-100"), s("-3"), s("/d.db"), s("debug"), s("key")).unwrap();
    assert_eq!(c.channel_id, Some(-100));
    assert_eq!(c.fetch_interval_min, 5);
    assert_eq!(c.db_path, "/d.db");
    assert_eq!(c.log_level, "debug");
    assert_eq!(c.tmdb_api_key.as_deref(), Some("key"));
}

#[test]
fn missing_token_is_an_error() {
    let e = Config::from_vars(None, None, None, None, None, None, None).unwrap_err();
    assert_eq!(e, ConfigError::MissingToken);
    assert_eq!(e.message(), "缺少环境变量 TELEGRAM_BOT_TOKEN（BotFather 获取）");
}

#[test]
fn ids_and_settings() {
    assert_eq!(resolve_id(Some(1), Some("2")), Some(1));
    assert_eq!(resolve_id(None, Some(" 2 ")), Some(2));
    assert_eq!(resolve_id(None, Some("x")), None);
    assert_eq!(resolve_id(None, None), None);
    assert!(setting_bool(Some("1"), false));
    assert!(!setting_bool(Some("true"), true));
    assert!(setting_bool(None, true));
    assert_eq!(setting_int(Some(" 7 "), 5), 7);
    assert_eq!(setting_int(Some("x"), 5), 5);
    assert_eq!(setting_int(None, 3), 3);
}

#[test]
fn poll_sleep() {
    assert_eq!(poll_wait_secs(5, 10), 290);
    assert_eq!(poll_wait_secs(0, 0), 60);
    assert_eq!(poll_wait_secs(1, 50), 30);
    assert_eq!(poll_wait_secs(1, 1000), 30);
}

#[test]
fn days_between_timestamps() {
    // 2024-01-01 00:00:00 is 1704067200 seconds after the epoch.
    assert_eq!(days_since("2024-01-01 00:00:00", 1704067200 + 3 * 86400 + 5), 3);
    assert_eq!(days_since("2024-01-01 00:00:00", 1704067200 + 86399), 0);
    assert_eq!(days_since("2024-01-02 00:00:00", 1704067200 - 86400), -2);
    assert_eq!(days_since("2024-01-02 00:00:00", 1704067200 - 1), -1);
    assert_eq!(days_since("not a time", 1704067200), 0);
}

#[test]
fn totals_refresh_every_twelve_hours() {
    assert!(refresh_due(None, 1704067200));
    assert!(!refresh_due(Some(1704067200), 1704067200));
    assert!(!refresh_due(Some(1704067200), 1704067200 + 60));
    assert!(!refresh_due(Some(1704067200), 1704067200 + 43199));
    assert!(refresh_due(Some(1704067200), 1704067200 + 43200));
    assert!(refresh_due(Some(i64::MIN), i64::MAX));
    assert!(!refresh_due(Some(i64::MAX), i64::MIN));
}

#[test]
fn tmdb_search() {
    assert_eq!(search_lang(0), Some("zh-CN"));
    assert_eq!(search_lang(1), Some("en-US"));
    assert_eq!(search_lang(2), None);
    assert_eq!(
        search_url("K", "zh-CN", "葬送 的&x"),
        "https://api.themoviedb.org/3/search/tv?api_key=K&language=zh-CN&query=%E8%91%AC%E9%80%81+%E7%9A%84%26x"
    );
    let r = TmdbResult { name: s("Frieren"), first_air_date: s("2023-09-29"), poster_path: s("/p.jpg") };
    let h = hit_of(&r);
    assert_eq!(h.title, "Frieren");
    assert_eq!(h.year.as_deref(), Some("2023"));
    assert_eq!(h.poster.as_deref(), Some("https://image.tmdb.org/t/p/w500/p.jpg"));
    let e = TmdbResult { name: None, first_air_date: s("99"), poster_path: None };
    let hs = hits_of(&[r.clone(), e]);
    assert_eq!(hs.len(), 2);
    assert_eq!(hs[1].title, "");
    assert_eq!(hs[1].year.as_deref(), Some("99"));
    assert_eq!(hs[1].poster, None);
}

#[test]
fn whole_days_between_two_times() {
    assert_eq!(days_between(Some(1000), 1000 + 2 * 86400 + 7), 2);
    assert_eq!(days_between(Some(1000), 1000 + 86399), 0);
    assert_eq!(days_between(Some(1000 + 86400 * 3), 1000), -3);
    assert_eq!(days_between(Some(1000 + 86399), 1000), 0);
    assert_eq!(days_between(None, 123456789), 0);
    assert_eq!(days_since("not a time", 123456789), 0);
}
