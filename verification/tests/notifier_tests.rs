use btboy::models::{fmt_episode, fmt_episode_i, Candidate, Lang, SubRow};
use btboy::notifier::{candidate_line, format_push, html_escape};

fn sub(title: &str) -> SubRow {
    SubRow {
        id: 3,
        rss_url: "http://feed".to_string(),
        title: title.to_string(),
        start_episode: 1,
        lang_pref: "ask".to_string(),
        include_kw: String::new(),
        exclude_kw: String::new(),
        enabled: true,
        last_fetch_at: None,
        created_at: "2024-01-01 00:00:00".to_string(),
        backup_rss_url: String::new(),
        total_episodes: None,
        bgm_id: None,
        last_push_at: None,
        last_slack_notified: None,
        gap_notified: None,
        poster_url: None,
    }
}

fn cand() -> Candidate {
    Candidate {
        title: "t".to_string(),
        magnet: "magnet:?xt=urn:btih:ABCDEF0123456789".to_string(),
        fansub: Some("Lilith-Raws".to_string()),
        episode: 7,
        version: 2,
        lang: "简中".to_string(),
        quality: Some("1080P".to_string()),
        codec: Some("HEVC".to_string()),
        source: Some("Baha".to_string()),
        link: String::new(),
    }
}

#[test]
fn escape_replaces_markup() {
    assert_eq!(html_escape("a<b>&c"), "a&lt;b&gt;&amp;c");
    assert_eq!(html_escape("&amp;"), "&amp;amp;");
    assert_eq!(html_escape("纯文本"), "纯文本");
}

#[test]
fn push_format_is_fixed() {
    assert_eq!(
        format_push(&sub("败犬<女主>"), &cand()),
        "<b>败犬&lt;女主&gt; 第07话</b>\n<i>[Lilith-Raws · 1080P · HEVC · 简中 · v2]</i>\n\nmagnet:?xt=urn:btih:ABCDEF0123456789"
    );
}

#[test]
fn push_format_without_attributes() {
    let mut c = cand();
    c.fansub = None;
    c.quality = None;
    c.codec = None;
    c.lang = "未知".to_string();
    c.version = 1;
    c.episode = 123;
    assert_eq!(format_push(&sub("番"), &c), "<b>番 第123话</b>\n\n\nmagnet:?xt=urn:btih:ABCDEF0123456789");
}

#[test]
fn candidate_lines_show_version_and_hash() {
    assert_eq!(candidate_line(&cand(), 0), "1 · v2 · 简中 · 1080P · HEVC · …ABCDEF01");
    let mut c = cand();
    c.version = 1;
    c.magnet = "magnet:?xt=urn:btih:abc".to_string();
    assert_eq!(candidate_line(&c, 4), "5 · v1 · 简中 · 1080P · HEVC · …????");
}

#[test]
fn episodes_are_two_digits() {
    assert_eq!(fmt_episode(1), "01");
    assert_eq!(fmt_episode(7), "07");
    assert_eq!(fmt_episode(12), "12");
    assert_eq!(fmt_episode(100), "100");
    assert_eq!(fmt_episode_i(-3), "-3");
    assert_eq!(fmt_episode_i(5), "05");
}

#[test]
fn language_labels_round_trip() {
    for l in [Lang::Simp, Lang::Trad, Lang::Bilingual, Lang::Unknown] {
        assert_eq!(Lang::from_label(l.label()), l);
    }
    assert_eq!(Lang::from_label("其他"), Lang::Unknown);
    let c = cand();
    assert_eq!(c.lang_label(), Lang::Simp);
}

#[test]
fn escaped_text_reads_back() {
    for t in ["a<b>&c", "&lt;", "plain", "", "<<&&>>", "番&剧"] {
        let e = html_escape(t);
        assert!(!e.contains('<') && !e.contains('>'));
        assert_eq!(e.replace("&lt;", "<").replace("&gt;", ">").replace("&amp;", "&"), t);
    }
    assert_eq!(html_escape("&lt;"), "&amp;lt;");
}
