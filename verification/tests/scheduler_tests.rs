use btboy::models::{Candidate, Lang, RssItem, SubRow};
use btboy::parser::parse_title;
use btboy::rss::parse_rss_bytes;
use btboy::scheduler::{
    admit_candidate, autodisable_due, autodisable_message, bgm_total, bgm_update, bgm_update_message,
    candidate_attrs, confirm_message, decide_fresh, error_message, fresh_question, gap_message, gap_notice,
    group_action, group_by_episode, highest_episode, learn_lang, missing_episodes, needs_backup, push_target, screen_item,
    slack_due, slack_message, update_question, admin_push_message, Decision, GroupAction, PushTarget,
};
use sha1::Digest;

const FIXTURE: &str = r#"<?xml version="1.0" encoding="UTF-8"?>
<rss version="2.0">
<channel>
<title>bangumi.moe</title>
<link>https://bangumi.moe/</link>
<description>bangumi.moe rss</description>
<item>
<title>[黒ネズミたち] 再見菈菈 / Sayonara Lara - 07 (ABEMA 1920x1080 AVC AAC MKV)</title>
<link>https://bangumi.moe/torrent/6700000000000000000000a1</link>
<guid isPermaLink="false">6700000000000000000000a1</guid>
<enclosure url="https://bangumi.moe/download/torrent/6700000000000000000000a1/a1.torrent" length="0" type="application/x-bittorrent"/>
</item>
<item>
<title>[黒ネズミたち] 再見菈菈 / Sayonara Lara - 07 (CR 1920x1080 AVC AAC MKV)</title>
<link>https://bangumi.moe/torrent/6700000000000000000000a2</link>
<guid isPermaLink="false">6700000000000000000000a2</guid>
<enclosure url="https://bangumi.moe/download/torrent/6700000000000000000000a2/a2.torrent" length="0" type="application/x-bittorrent"/>
</item>
<item>
<title>[黒ネズミたち] 再見菈菈 / Sayonara Lara - 07 (Baha 1920x1080 AVC AAC MP4)</title>
<link>https://bangumi.moe/torrent/6700000000000000000000a3</link>
<guid isPermaLink="false">6700000000000000000000a3</guid>
<enclosure url="https://bangumi.moe/download/torrent/6700000000000000000000a3/a3.torrent" length="0" type="application/x-bittorrent"/>
</item>
</channel>
</rss>
"#;

fn sub(lang_pref: &str) -> SubRow {
    SubRow {
        id: 1,
        rss_url: "http://test/feed".to_string(),
        title: "再見菈菈 / Sayonara Lara".to_string(),
        start_episode: 1,
        lang_pref: lang_pref.to_string(),
        include_kw: String::new(),
        exclude_kw: String::new(),
        enabled: true,
        last_fetch_at: None,
        created_at: "2024-01-01 00:00:00".to_string(),
        backup_rss_url: String::new(),
        total_episodes: None,
        bgm_id: None,
        last_push_at: None,
        last_slack_notified: None,
        gap_notified: None,
        poster_url: None,
    }
}

fn cand(ep: u32, version: u32, lang: &str, magnet: &str) -> Candidate {
    Candidate {
        title: format!("t{ep}v{version}{lang}"),
        magnet: magnet.to_string(),
        fansub: Some("组".to_string()),
        episode: ep,
        version,
        lang: lang.to_string(),
        quality: Some("1080P".to_string()),
        codec: None,
        source: None,
        link: String::new(),
    }
}

fn sha1_hex(bytes: &[u8]) -> String {
    sha1::Sha1::digest(bytes).iter().map(|b| format!("{b:02x}")).collect()
}

#[test]
fn pipeline_detects_3_sources_and_asks() {
    let s = sub("ask");
    let mut items = parse_rss_bytes(FIXTURE.as_bytes()).unwrap();
    for it in &mut items {
        let hash = sha1_hex(it.title.as_bytes());
        it.magnet = Some(format!("magnet:?xt=urn:btih:{hash}"));
    }
    let mut candidates: Vec<Candidate> = Vec::new();
    for it in &items {
        let p = screen_item(&s, it, false).expect("screened in");
        let c = admit_candidate(it, &p, false, false, it.magnet.clone(), false, &[]).expect("admitted");
        candidates.push(c);
    }
    assert_eq!(candidates.len(), 3);
    let mut sources: Vec<&str> = candidates.iter().map(|c| c.source.as_deref().unwrap()).collect();
    sources.sort();
    assert_eq!(sources, vec!["ABEMA", "Baha", "CR"]);
    match decide_fresh(&None, &s, &candidates) {
        Decision::Ask => {}
        other => panic!("expected Ask, got {other:?}"),
    }
    for c in &candidates {
        assert!(c.magnet.starts_with("magnet:?xt=urn:btih:"));
    }
}

#[test]
fn remembered_version_is_pushed() {
    let s = sub("ask");
    let cands = vec![cand(7, 1, "简中", "m1"), cand(7, 2, "简中", "m2")];
    let pref = Some(("简中".to_string(), Some(2)));
    match decide_fresh(&pref, &s, &cands) {
        Decision::Push(v) => {
            assert_eq!(v.len(), 1);
            assert_eq!(v[0].magnet, "m2");
        }
        other => panic!("expected Push, got {other:?}"),
    }
}

#[test]
fn missing_version_falls_back_to_highest_in_language() {
    let s = sub("ask");
    let cands = vec![cand(7, 2, "繁中", "a"), cand(7, 3, "简中", "b"), cand(7, 4, "简中", "c"), cand(7, 4, "简中", "d")];
    let pref = Some(("简中".to_string(), Some(9)));
    match decide_fresh(&pref, &s, &cands) {
        Decision::Push(v) => assert_eq!(v[0].magnet, "d"),
        other => panic!("expected Push, got {other:?}"),
    }
    let pref2 = Some(("繁中".to_string(), Some(9)));
    let only_simp = vec![cand(7, 1, "简中", "x")];
    assert!(matches!(decide_fresh(&pref2, &s, &only_simp), Decision::Skip));
}

#[test]
fn remembered_ignore_skips() {
    let s = sub("ask");
    let cands = vec![cand(7, 1, "简中", "m1")];
    let pref = Some((String::new(), None));
    assert!(matches!(decide_fresh(&pref, &s, &cands), Decision::Skip));
}

#[test]
fn language_preference_decides() {
    let cands = vec![cand(7, 1, "简中", "s"), cand(7, 1, "繁中", "t")];
    match decide_fresh(&None, &sub("繁中"), &cands) {
        Decision::Push(v) => assert_eq!(v[0].magnet, "t"),
        other => panic!("expected Push, got {other:?}"),
    }
    let none = vec![cand(7, 1, "简中", "s")];
    assert!(matches!(decide_fresh(&None, &sub("繁中"), &none), Decision::Skip));
    let two = vec![cand(7, 1, "简中", "s"), cand(7, 2, "简中", "s2")];
    assert!(matches!(decide_fresh(&None, &sub("简中"), &two), Decision::Ask));
}

#[test]
fn single_candidate_is_pushed_without_preference() {
    let cands = vec![cand(7, 1, "简中", "only")];
    match decide_fresh(&None, &sub("ask"), &cands) {
        Decision::Push(v) => assert_eq!(v[0].magnet, "only"),
        other => panic!("expected Push, got {other:?}"),
    }
}

#[test]
fn groups_by_episode_ascending() {
    let cands = vec![cand(8, 1, "简中", "a"), cand(7, 1, "简中", "b"), cand(8, 2, "简中", "c")];
    let g = group_by_episode(&cands);
    assert_eq!(g.len(), 2);
    assert_eq!(g[0].0, 7);
    assert_eq!(g[0].1.iter().map(|c| c.magnet.as_str()).collect::<Vec<_>>(), vec!["b"]);
    assert_eq!(g[1].0, 8);
    assert_eq!(g[1].1.iter().map(|c| c.magnet.as_str()).collect::<Vec<_>>(), vec!["a", "c"]);
}

#[test]
fn missing_episodes_in_range() {
    assert_eq!(missing_episodes(&[1, 2, 5], 1), vec![3, 4]);
    assert_eq!(missing_episodes(&[5, 2], 3), vec![3, 4]);
    assert_eq!(missing_episodes(&[], 1), Vec::<i64>::new());
    assert_eq!(missing_episodes(&[4], 0), vec![1, 2, 3]);
}

#[test]
fn gap_is_reported_once() {
    let sig = gap_notice(&[3, 4], &None);
    assert_eq!(sig.as_deref(), Some("03,04"));
    assert_eq!(gap_notice(&[3, 4], &sig), None);
    let many: Vec<i64> = (1..=11).collect();
    assert_eq!(gap_notice(&many, &None), None);
    assert_eq!(gap_notice(&[], &None), None);
}

#[test]
fn gap_message_text() {
    assert_eq!(
        gap_message("A<B", &[3, 4], 5),
        "🔍 <b>A&lt;B</b> 遗漏检测: 第 03 04 话尚未推送 (已推到 05)"
    );
}

#[test]
fn autodisable_rules() {
    assert!(autodisable_due(true, Some(12), 12));
    assert!(!autodisable_due(true, Some(12), 11));
    assert!(!autodisable_due(false, Some(12), 12));
    assert!(!autodisable_due(true, Some(0), 3));
    assert!(!autodisable_due(true, None, 3));
    assert_eq!(autodisable_message("番", 12), "🏁 <b>番</b> 全部 12 集已推送，订阅已自动停用");
}

#[test]
fn slack_rules() {
    assert!(slack_due(3, Some(3), None));
    assert!(!slack_due(3, Some(2), None));
    assert!(!slack_due(0, Some(30), None));
    assert!(!slack_due(3, None, None));
    assert!(!slack_due(3, Some(5), Some(0)));
    assert!(slack_due(3, Some(5), Some(1)));
    assert_eq!(
        slack_message("番", 4),
        "🥱 <b>番</b> 已 4 天没有更新，字幕组可能摸鱼了（建议检查 RSS / 开启自动停用）"
    );
}

fn item(title: &str) -> RssItem {
    RssItem {
        title: title.to_string(),
        link: "l".to_string(),
        magnet: None,
        enclosure_url: None,
        enclosure_type: None,
        guid: String::new(),
    }
}

#[test]
fn screening_rules() {
    let mut s = sub("ask");
    assert!(screen_item(&s, &item("[x] 某番 - 07.5 (1080P)"), false).is_some());
    assert!(screen_item(&s, &item("[x] 某番 - 07.5 (1080P)"), true).is_none());
    assert!(screen_item(&s, &item("[x] 某番 - 01-12 合集 (1080P)"), false).is_none());
    assert!(screen_item(&s, &item("[x] 某番 - NC (1080P)"), false).is_none());
    s.start_episode = 8;
    assert!(screen_item(&s, &item("[x] 某番 - 07 (1080P)"), false).is_none());
    assert!(screen_item(&s, &item("[x] 某番 - 08 (1080P)"), false).is_some());
    s.exclude_kw = "1080P".to_string();
    assert!(screen_item(&s, &item("[x] 某番 - 08 (1080P)"), false).is_none());
}

#[test]
fn admission_rules() {
    let it = item("[x] 某番 - 07 (1080P 简中)");
    let p = parse_title(&it.title);
    let m = Some("magnet:?xt=urn:btih:abc".to_string());
    let c = admit_candidate(&it, &p, false, false, m.clone(), false, &[]).unwrap();
    assert_eq!(c.episode, 7);
    assert_eq!(c.lang, "简中");
    assert_eq!(c.link, "l");
    assert!(admit_candidate(&it, &p, true, false, m.clone(), false, &[]).is_none());
    assert!(admit_candidate(&it, &p, false, true, m.clone(), false, &[]).is_none());
    assert!(admit_candidate(&it, &p, false, false, None, false, &[]).is_none());
    assert!(admit_candidate(&it, &p, false, false, m.clone(), true, &[]).is_none());
    assert!(admit_candidate(&it, &p, false, false, m.clone(), false, &[(1, "简中".to_string())]).is_none());
    assert!(admit_candidate(&it, &p, false, false, m, false, &[(2, "简中".to_string())]).is_some());
    assert_eq!(p.lang, Lang::Simp);
}

#[test]
fn group_actions() {
    assert_eq!(group_action(true, false, false), GroupAction::Skip);
    assert_eq!(group_action(false, true, true), GroupAction::Skip);
    assert_eq!(group_action(false, true, false), GroupAction::AskUpdate);
    assert_eq!(group_action(false, false, true), GroupAction::Decide);
}

#[test]
fn language_is_learned_only_when_asking() {
    assert!(learn_lang("简中", "ask"));
    assert!(learn_lang("简中", ""));
    assert!(!learn_lang("简中", "繁中"));
    assert!(!learn_lang("未知", "ask"));
    assert!(!learn_lang("", "ask"));
}

#[test]
fn confirmation_texts() {
    let mut c = cand(7, 2, "简中", "m");
    c.source = Some("Baha".to_string());
    c.codec = Some("HEVC".to_string());
    assert_eq!(candidate_attrs(&c), "组 · Baha · 1080P · HEVC · 简中 · v2");
    assert_eq!(confirm_message("已推送", "A&B", &c), "✅ 已推送 A&amp;B 第07话 (组 · Baha · 1080P · HEVC · 简中 · v2)");
}

#[test]
fn push_targets() {
    assert_eq!(push_target(Some(-100), Some(5)), PushTarget::Channel(-100));
    assert_eq!(push_target(None, Some(5)), PushTarget::Admin(5));
    assert_eq!(push_target(None, None), PushTarget::Nowhere);
    assert_eq!(admin_push_message("x"), "⚠️ 未绑定频道，磁力发到管理员会话\n\nx");
    assert_eq!(error_message("<t>", "e&"), "⚠️ <b>&lt;t&gt;</b> 拉取失败: e&amp;");
}

#[test]
fn fresh_question_text_and_buttons() {
    let cands = vec![
        cand(7, 1, "简中", "magnet:?xt=urn:btih:0123456789abcdef"),
        cand(7, 2, "未知", "magnet:?xt=urn:btih:fedcba9876543210"),
    ];
    let (text, rows) = fresh_question("番", 7, &cands, 42);
    assert_eq!(
        text,
        "🧐 <b>番</b> 第07话 发现多个来源/版本\n1 · v1 · 简中 · 1080P · …01234567\n2 · v2 · 1080P · …fedcba98\n\n要推送哪个？"
    );
    assert_eq!(rows.len(), 2);
    assert_eq!(rows[0], vec![("1".to_string(), "pick:42:0".to_string()), ("2".to_string(), "pick:42:1".to_string())]);
    assert_eq!(
        rows[1],
        vec![
            ("全部".to_string(), "pickall:42".to_string()),
            ("跳过".to_string(), "skip:42".to_string()),
            ("稍后".to_string(), "later:42".to_string())
        ]
    );
}

#[test]
fn update_question_text_and_buttons() {
    let cands: Vec<Candidate> = (0..8).map(|i| cand(3, i + 1, "简中", "nohash")).collect();
    let (text, rows) = update_question("番", 3, &cands, -5);
    assert!(text.starts_with("♻️ <b>番</b> 第03话 发现新版本\n1 · v1 · 简中 · 1080P · …????\n"));
    assert!(text.ends_with("\n\n追加推送？"));
    assert_eq!(rows[0].len(), 6);
    assert_eq!(rows[0][5], ("6".to_string(), "add:-5:5".to_string()));
    assert_eq!(rows[1], vec![("忽略".to_string(), "noadd:-5".to_string()), ("稍后".to_string(), "later:-5".to_string())]);
}

#[test]
fn bgm_totals() {
    assert_eq!(bgm_total(Some(12)), Some(12));
    assert_eq!(bgm_total(Some(0)), None);
    assert_eq!(bgm_total(None), None);
    assert_eq!(bgm_update(12, None), Some(0));
    assert_eq!(bgm_update(12, Some(12)), None);
    assert_eq!(bgm_update(13, Some(12)), Some(12));
    assert_eq!(bgm_update(0, Some(12)), None);
    assert_eq!(bgm_update_message("番", 12, 13), "📚 <b>番</b> BGM 总集数更新: 12 → 13");
}

#[test]
fn backup_feed_is_polled_only_when_needed() {
    assert!(needs_backup(0, "http://b"));
    assert!(!needs_backup(1, "http://b"));
    assert!(!needs_backup(0, ""));
}

#[test]
fn highest_pushed_episode() {
    assert_eq!(highest_episode(&[]), 0);
    assert_eq!(highest_episode(&[3, 12, 7]), 12);
    assert_eq!(highest_episode(&[-2, -5]), -2);
}
