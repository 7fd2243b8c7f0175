use btboy::commands::GuidedCmd;
use btboy::conversation::Step;
use btboy::guide::{guide, menu_next, MenuNext};
use btboy::models::SubRow;
use btboy::replies::{reply, Reply};

fn sub(id: i64, title: &str) -> SubRow {
    SubRow {
        id,
        rss_url: "http://feed".to_string(),
        title: title.to_string(),
        start_episode: 1,
        lang_pref: String::new(),
        include_kw: String::new(),
        exclude_kw: String::new(),
        enabled: true,
        last_fetch_at: None,
        created_at: "2024-01-01 00:00:00".to_string(),
        backup_rss_url: String::new(),
        total_episodes: None,
        bgm_id: None,
        last_push_at: None,
        last_slack_notified: None,
        gap_notified: None,
        poster_url: None,
    }
}

fn b(label: &str, data: &str) -> (String, String) {
    (label.to_string(), data.to_string())
}

#[test]
fn show_without_id_offers_the_subscriptions() {
    let subs = vec![sub(3, "葬送的芙莉莲"), sub(7, "Frieren")];
    let o = guide(GuidedCmd::Show, &subs);
    assert!(matches!(o.reply, Reply::PickSubscription(GuidedCmd::Show)));
    assert_eq!(o.keyboard, Some(vec![vec![b("#3 葬送的芙莉莲", "menu:show:3")], vec![b("#7 Frieren", "menu:show:7")]]));
    assert!(o.conv.is_none());
    assert_eq!(reply(&o.reply), "请选择要 /show 的订阅:");
}

#[test]
fn push_without_id_offers_all_or_one() {
    let subs = vec![sub(3, "A")];
    let o = guide(GuidedCmd::Push, &subs);
    assert!(matches!(o.reply, Reply::PickSubscription(GuidedCmd::Push)));
    assert_eq!(o.keyboard, Some(vec![vec![b("全部", "menu:push:all")], vec![b("#3 A", "menu:push:3")]]));
}

#[test]
fn picker_with_no_subscriptions_says_so() {
    for g in [GuidedCmd::Edit, GuidedCmd::Del, GuidedCmd::Push, GuidedCmd::Total] {
        let o = guide(g, &[]);
        assert!(matches!(o.reply, Reply::NoSubs));
        assert!(o.keyboard.is_none());
        assert!(o.conv.is_none());
    }
}

#[test]
fn a_bare_switch_asks_on_or_off() {
    let o = guide(GuidedCmd::Rss, &[]);
    assert!(matches!(o.reply, Reply::PickSwitch(GuidedCmd::Rss)));
    assert_eq!(o.keyboard, Some(vec![vec![b("开", "menu:rss:on"), b("关", "menu:rss:off")]]));
    assert_eq!(reply(&o.reply), "/rss 开还是关？");
}

#[test]
fn a_bare_value_command_waits_for_the_value() {
    let o = guide(GuidedCmd::Interval, &[sub(1, "A")]);
    assert!(matches!(o.reply, Reply::AskValue(GuidedCmd::Interval)));
    assert!(o.keyboard.is_none());
    match o.conv {
        Some(Step::AwaitArg { cmd, first }) => {
            assert_eq!(cmd, "interval");
            assert_eq!(first, None);
        }
        other => panic!("{other:?}"),
    }
    assert_eq!(reply(&o.reply), "请发送轮询间隔（1-1440 分钟，/cancel 取消）:");
}

#[test]
fn a_pressed_menu_button_runs_or_asks() {
    match menu_next("show:3") {
        Some(MenuNext::Run(c, a)) => {
            assert_eq!(c, "show");
            assert_eq!(a, vec!["3".to_string()]);
        }
        other => panic!("{other:?}"),
    }
    match menu_next("push:all") {
        Some(MenuNext::Run(c, a)) => {
            assert_eq!(c, "push");
            assert_eq!(a, vec!["all".to_string()]);
        }
        other => panic!("{other:?}"),
    }
    match menu_next("total:4") {
        Some(MenuNext::Ask(Step::AwaitArg { cmd, first }, r)) => {
            assert_eq!(cmd, "total");
            assert_eq!(first, Some("4".to_string()));
            assert!(matches!(r, Reply::AskValue(GuidedCmd::Total)));
        }
        other => panic!("{other:?}"),
    }
    assert!(menu_next("list:3").is_none());
    assert!(menu_next("show").is_none());
}

#[test]
fn fetching_everything_is_reported() {
    assert_eq!(reply(&Reply::FetchedAll(4, 2, 1)), "✅ 全部拉取完成: 新候选 4 · 推送 2 · 询问 1");
}
