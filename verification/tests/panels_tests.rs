use btboy::models::SubRow;
use btboy::panels::{
    confirm_keyboard, delete_keyboard, edit_keyboard, edit_lang_keyboard, help_text, lang_keyboard, last_lines, list_text,
    logs_text, preview_title, status_text, sub_detail, test_candidate, Status,
};
use btboy::replies::{reply, Reply};

fn sub() -> SubRow {
    SubRow {
        id: 3,
        rss_url: "http://feed?a=1&b=2".to_string(),
        title: "A<B>".to_string(),
        start_episode: 5,
        lang_pref: "".to_string(),
        include_kw: "1080P".to_string(),
        exclude_kw: String::new(),
        enabled: true,
        last_fetch_at: Some("2024-05-01 10:00:00".to_string()),
        created_at: "2024-01-01 00:00:00".to_string(),
        backup_rss_url: String::new(),
        total_episodes: Some(12),
        bgm_id: None,
        last_push_at: None,
        last_slack_notified: None,
        gap_notified: None,
        poster_url: None,
    }
}

fn b(l: &str, d: &str) -> (String, String) {
    (l.to_string(), d.to_string())
}

#[test]
fn help_lists_the_commands() {
    let h = help_text();
    assert!(h.starts_with("🤖 <b>BTBoy 自动追番</b>\n\n<b>订阅管理</b>\n/sub <rss> — 添加订阅（蜜柑RSS）\n"));
    assert!(h.ends_with("/cancel — 取消当前对话\n/admin [id] — 首个使用者成为管理员"));
    assert_eq!(h.lines().count(), 31);
}

#[test]
fn detail_of_a_subscription() {
    assert_eq!(
        sub_detail(&sub()),
        "<b>#3 A&lt;B&gt;</b>\n状态: 🟢 启用\nRSS: http://feed?a=1&amp;b=2\n起始集: 05 · 简繁: ask\n包含词: 1080P · 排除词: -\n备用 RSS: -\n总集数: 12\nBGM ID: -\n上次拉取: 2024-05-01 10:00:00\n上次推送: -\n创建: 2024-01-01 00:00:00"
    );
}

#[test]
fn list_of_subscriptions() {
    let mut s2 = sub();
    s2.id = 4;
    s2.enabled = false;
    s2.lang_pref = "繁中".to_string();
    s2.backup_rss_url = "http://b".to_string();
    s2.title = "C".to_string();
    s2.rss_url = "http://c".to_string();
    assert_eq!(
        list_text(&[sub(), s2]),
        "🟢 <b>#3</b> A&lt;B&gt; · 从05话起 · ask\n    http://feed?a=1&amp;b=2\n\n⏸️ <b>#4</b> C · 从05话起 · 繁中 📦备用\n    http://c"
    );
    assert_eq!(list_text(&[]), "");
}

#[test]
fn status_panel() {
    let s = Status {
        admin: Some(7),
        channel: None,
        subscriptions: 2,
        pushed: 10,
        uptime: 65,
        rss_on: true,
        interval_min: 5,
        skip_half: false,
        gap_detect: true,
        slack_days: 0,
        autodisable: false,
    };
    assert_eq!(
        status_text(&s),
        "📊 <b>BTBoy 状态</b>\n管理员: 7\n推送频道: 未绑定\n订阅数: 2 · 已推送: 10\n运行时长: 65s\n── 设置 ──\nRSS 总开关: 开 · 轮询间隔: 5 分钟\n跳过 .5 集: 关 · 遗漏检测: 开 · 摸鱼检测: 0 天 · 自动停用: 关"
    );
}

#[test]
fn logs_are_escaped_and_cut() {
    assert_eq!(logs_text("a<b"), "<pre>a&lt;b</pre>");
    let long = "x".repeat(5000);
    let t = logs_text(&long);
    assert_eq!(t.chars().count(), 4000 + 11);
}

#[test]
fn last_lines_of_a_log() {
    assert_eq!(last_lines("a\nb\nc\n", 2), "b\nc");
    assert_eq!(last_lines("a\r\nb\r\nc", 5), "a\nb\nc");
    assert_eq!(last_lines("", 3), "");
    assert_eq!(last_lines("a\n\nb", 2), "\nb");
    assert_eq!(last_lines("only", 0), "");
    assert_eq!(last_lines("x\r", 1), "x\r");
}

#[test]
fn keyboards() {
    assert_eq!(
        edit_keyboard(3),
        vec![
            vec![b("起始集", "edit:3:start_episode"), b("简繁", "editlangsel:3")],
            vec![b("包含词", "edit:3:include_kw"), b("排除词", "edit:3:exclude_kw")],
            vec![b("启/停", "toggle:3"), b("删除", "del:3")],
        ]
    );
    assert_eq!(delete_keyboard(-2), vec![vec![b("确认删除", "delc:-2:yes"), b("取消", "delc:-2:no")]]);
    assert_eq!(confirm_keyboard(), vec![vec![b("确认", "subc:yes"), b("取消", "subc:no")]]);
    assert_eq!(
        lang_keyboard("sublang:"),
        vec![vec![b("简中", "sublang:简中"), b("繁中", "sublang:繁中"), b("简繁都要", "sublang:简繁"), b("每次问我", "sublang:ask")]]
    );
    assert_eq!(edit_lang_keyboard(9)[0][3], b("每次问我", "editlang:9:ask"));
}

#[test]
fn channel_test_candidate() {
    let c = test_candidate("番");
    assert_eq!(c.title, "番 测试");
    assert_eq!(c.magnet, "magnet:?xt=urn:btih:TESTMAGNET");
    assert_eq!(c.episode, 1);
    assert_eq!(c.version, 1);
    assert_eq!(c.lang, "简中");
    assert_eq!(c.quality.as_deref(), Some("1080P"));
    assert!(c.fansub.is_none() && c.codec.is_none() && c.source.is_none());
}

#[test]
fn preview_of_a_new_feed() {
    assert_eq!(preview_title(Some("[Lilith-Raws] 败犬女主太多了！ - 07 (Baha 1080P 简中 内嵌)")), "败犬女主太多了！");
    assert_eq!(preview_title(None), "(无法自动识别番名)");
    assert_eq!(preview_title(Some("[x]")), "(无法自动识别番名)");
}

#[test]
fn reply_texts() {
    assert_eq!(reply(&Reply::BecameAdmin(42)), "✅ 你已成为管理员 (id=42)");
    assert_eq!(reply(&Reply::AdminSet(43)), "✅ 管理员已设为 43");
    assert_eq!(reply(&Reply::AdminIs(42)), "管理员已是 42");
    assert_eq!(reply(&Reply::ChannelBound(-100)), "✅ 已绑定频道 -100");
    assert_eq!(reply(&Reply::NotFound(5)), "未找到订阅 #5");
    assert_eq!(reply(&Reply::EditTitle(5)), "编辑订阅 <b>#5</b>");
    assert_eq!(reply(&Reply::DeleteConfirm("a&b".to_string(), 5)), "确认删除订阅 <b>a&amp;b</b> (#5)?");
    assert_eq!(reply(&Reply::Fetched(5, 3, 1, 1)), "✅ #5 拉取完成: 新候选 3 · 推送 1 · 询问 1");
    assert_eq!(reply(&Reply::RssSwitched(false)), "✅ RSS 轮询总开关: 关");
    assert_eq!(reply(&Reply::IntervalSet(10)), "✅ 轮询间隔设为 10 分钟");
    assert_eq!(reply(&Reply::SlackSet(3)), "✅ 摸鱼检测: 3 天没更新会通知");
    assert_eq!(reply(&Reply::SlackSet(0)), "✅ 摸鱼检测已关闭");
    assert_eq!(reply(&Reply::TotalSet(1, 12)), "✅ #1 总集数设为 12");
    assert_eq!(reply(&Reply::BgmBound(1, 9, Some(12))), "✅ #1 绑定 BGM 9，总集数 12");
    assert_eq!(reply(&Reply::BgmBound(1, 9, None)), "✅ #1 已绑定 BGM 9（暂时取不到总集数，稍后会自动刷新）");
    assert_eq!(reply(&Reply::BackupSet(2)), "✅ #2 备用 RSS 已设置");
    assert_eq!(reply(&Reply::Unknown), "未知命令，发送 /help 查看帮助");
    assert_eq!(reply(&Reply::SubPreview("<x>".to_string())), "识别到的番名可能是:\n<b>&lt;x&gt;</b>\n\n确认后设置起始集和简繁偏好。");
    assert_eq!(reply(&Reply::StartFrom(3)), "从第3集开始。现在选简繁偏好（可后续 /edit 修改）:");
    assert_eq!(
        reply(&Reply::SubAdded(4, "番".to_string(), 3, "ask".to_string())),
        "✅ 已添加订阅 <b>#4</b> 番\n从03话起 · 简繁: ask\n绑定频道后即开始定时推送（/bind）"
    );
    assert_eq!(reply(&Reply::Toggled(4, false, "番".to_string())), "✅ #4 已停用: 番");
    assert_eq!(reply(&Reply::Deleted(4)), "🗑️ 已删除订阅 #4");
    assert_eq!(reply(&Reply::LangSet(4, "繁中".to_string())), "✅ #4 简繁偏好已设为 繁中");
    assert_eq!(reply(&Reply::Updated(4, "include_kw".to_string())), "✅ 已更新 #4 的 include_kw");
    assert_eq!(reply(&Reply::CurrentValue("<v>".to_string())), "当前值: <b>&lt;v&gt;</b>\n输入新的值（/cancel 取消）:");
    assert_eq!(
        reply(&Reply::BindPrompt),
        "📣 请<b>转发一条来自目标频道</b>的消息给我（先把机器人加为该频道管理员），或直接发 /bind <频道ID>"
    );
}
