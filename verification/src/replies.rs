//! What the bot answers the administrator: the help, the replies to
//! commands and to the steps of a conversation.
use vstd::prelude::*;
use crate::notifier::{escape, html_escape, push_chars};
use crate::num::{decimal_chars, i64_pad2, i64_text, int_text, pad2};
use crate::text::push_str;
use crate::commands::{GuidedCmd, guided_name, guided_name_of};

verus! {

/// A reply to the administrator.
#[derive(Debug)]
pub enum Reply {
    BecameAdmin(i64),
    AdminSet(i64),
    AdminIs(i64),
    ChannelBound(i64),
    BindPrompt,
    SubUsage,
    NoSubs,
    NotFound(i64),
    EditTitle(i64),
    DeleteConfirm(String, i64),
    /// A subscription polled on demand: its id and the counts of new
    /// candidates, pushes and questions.
    Fetched(i64, usize, usize, usize),
    TestSent,
    NoSubToTest,
    NoChannel,
    Cancelled,
    RssSwitched(bool),
    IntervalSet(u64),
    SkipHalfSwitched(bool),
    GapSwitched(bool),
    SlackSet(i64),
    AutoDisableSwitched(bool),
    TotalUsage,
    TotalSet(i64, i64),
    BgmUsage,
    /// A Bangumi subject bound: the subscription, the subject and the total
    /// when Bangumi gave one.
    BgmBound(i64, i64, Option<i64>),
    BackupUsage,
    BackupSet(i64),
    BackupRemoved(i64),
    Unknown,
    /// The title guessed from a feed, to confirm.
    SubPreview(String),
    ChannelBoundBold(i64),
    ForwardPrompt,
    ConfirmPrompt,
    StartFrom(i64),
    /// A field of a subscription was changed: the id and the field's name.
    Updated(i64, String),
    AskStart,
    AddCancelled,
    /// A subscription added: its id, title, first episode and language.
    SubAdded(i64, String, i64, String),
    CurrentValue(String),
    ChooseLang(i64),
    LangSet(i64, String),
    /// A subscription switched on or off: its id, new state and title.
    Toggled(i64, bool, String),
    Deleted(i64),
    CancelledShort,
    /// Every enabled subscription polled on demand: the summed counts of new
    /// candidates, pushes and questions.
    FetchedAll(usize, usize, usize),
    /// A command sent without a subscription: choose one.
    PickSubscription(GuidedCmd),
    /// A switch sent without on or off: choose.
    PickSwitch(GuidedCmd),
    /// A command sent without its value: send it.
    AskValue(GuidedCmd),
}

/// The question for a command's value.
pub open spec fn value_prompt(g: GuidedCmd) -> Seq<char> {
    match g {
        GuidedCmd::Sub => "请发送蜜柑 RSS 链接（/cancel 取消）:"@,
        GuidedCmd::Interval => "请发送轮询间隔（1-1440 分钟，/cancel 取消）:"@,
        GuidedCmd::Slack => "请发送天数（off 关闭，/cancel 取消）:"@,
        GuidedCmd::Total => "请发送总集数（/cancel 取消）:"@,
        GuidedCmd::Bgm => "请发送 Bangumi 主题ID（/cancel 取消）:"@,
        GuidedCmd::Backup => "请发送备用 RSS 链接（/cancel 取消）:"@,
        _ => "请发送参数（/cancel 取消）:"@,
    }
}

fn value_prompt_of(g: GuidedCmd) -> (r: &'static str)
    ensures
        r@ == value_prompt(g),
{
    match g {
        GuidedCmd::Sub => "请发送蜜柑 RSS 链接（/cancel 取消）:",
        GuidedCmd::Interval => "请发送轮询间隔（1-1440 分钟，/cancel 取消）:",
        GuidedCmd::Slack => "请发送天数（off 关闭，/cancel 取消）:",
        GuidedCmd::Total => "请发送总集数（/cancel 取消）:",
        GuidedCmd::Bgm => "请发送 Bangumi 主题ID（/cancel 取消）:",
        GuidedCmd::Backup => "请发送备用 RSS 链接（/cancel 取消）:",
        _ => "请发送参数（/cancel 取消）:",
    }
}

/// How a switch is shown.
pub open spec fn switch_text(b: bool) -> Seq<char> {
    if b {
        "开"@
    } else {
        "关"@
    }
}

pub open spec fn num(n: i64) -> Seq<char> {
    int_text(n as int)
}

/// The text of a reply.
pub open spec fn reply_text(r: Reply) -> Seq<char> {
    match r {
        Reply::BecameAdmin(id) => "✅ 你已成为管理员 (id="@ + num(id) + ")"@,
        Reply::AdminSet(id) => "✅ 管理员已设为 "@ + num(id),
        Reply::AdminIs(id) => "管理员已是 "@ + num(id),
        Reply::ChannelBound(id) => "✅ 已绑定频道 "@ + num(id),
        Reply::BindPrompt => "📣 请<b>转发一条来自目标频道</b>的消息给我（先把机器人加为该频道管理员），或直接发 /bind <频道ID>"@,
        Reply::SubUsage => "用法: /sub <蜜柑RSS链接>\n例如 /sub https://mikanani.me/RSS/xxxxxx"@,
        Reply::NoSubs => "📭 还没有订阅，用 /sub <RSS链接> 添加"@,
        Reply::NotFound(id) => "未找到订阅 #"@ + num(id),
        Reply::EditTitle(id) => "编辑订阅 <b>#"@ + num(id) + "</b>"@,
        Reply::DeleteConfirm(title, id) => "确认删除订阅 <b>"@ + escape(title@) + "</b> (#"@ + num(id) + ")?"@,
        Reply::Fetched(id, n, p, a) => "✅ #"@ + num(id) + " 拉取完成: 新候选 "@ + int_text(n as int) + " · 推送 "@
            + int_text(p as int) + " · 询问 "@ + int_text(a as int),
        Reply::TestSent => "✅ 测试消息已发送到频道"@,
        Reply::NoSubToTest => "没有订阅可做测试，先 /sub 添加一个"@,
        Reply::NoChannel => "⚠️ 尚未绑定频道，用 /bind 绑定"@,
        Reply::Cancelled => "已取消当前操作"@,
        Reply::RssSwitched(b) => "✅ RSS 轮询总开关: "@ + switch_text(b),
        Reply::IntervalSet(n) => "✅ 轮询间隔设为 "@ + int_text(n as int) + " 分钟"@,
        Reply::SkipHalfSwitched(b) => "✅ 跳过 .5 特殊集: "@ + switch_text(b),
        Reply::GapSwitched(b) => "✅ 遗漏检测通知: "@ + switch_text(b),
        Reply::SlackSet(d) => if d > 0 {
            "✅ 摸鱼检测: "@ + num(d) + " 天没更新会通知"@
        } else {
            "✅ 摸鱼检测已关闭"@
        },
        Reply::AutoDisableSwitched(b) => "✅ 全部集数推送后自动停用订阅: "@ + switch_text(b),
        Reply::TotalUsage => "用法: /total <订阅ID> <总集数>"@,
        Reply::TotalSet(id, n) => "✅ #"@ + num(id) + " 总集数设为 "@ + num(n),
        Reply::BgmUsage => "用法: /bgm <订阅ID> <Bangumi主题ID>\n可在 bgm.tv 番剧详情页 URL 里找到 ID"@,
        Reply::BgmBound(id, bgm, total) => match total {
            Some(t) => "✅ #"@ + num(id) + " 绑定 BGM "@ + num(bgm) + "，总集数 "@ + num(t),
            None => "✅ #"@ + num(id) + " 已绑定 BGM "@ + num(bgm) + "（暂时取不到总集数，稍后会自动刷新）"@,
        },
        Reply::BackupUsage => "用法: /backup <订阅ID> <备用RSS链接>"@,
        Reply::BackupSet(id) => "✅ #"@ + num(id) + " 备用 RSS 已设置"@,
        Reply::BackupRemoved(id) => "✅ #"@ + num(id) + " 备用 RSS 已移除"@,
        Reply::Unknown => "未知命令，发送 /help 查看帮助"@,
        Reply::SubPreview(title) => "识别到的番名可能是:\n<b>"@ + escape(title@) + "</b>\n\n确认后设置起始集和简繁偏好。"@,
        Reply::ChannelBoundBold(id) => "✅ 已绑定频道 <b>"@ + num(id) + "</b>"@,
        Reply::ForwardPrompt => "请<b>转发一条来自目标频道</b>的消息，或 /cancel 取消"@,
        Reply::ConfirmPrompt => "请点击上方按钮确认，或 /cancel 取消"@,
        Reply::StartFrom(n) => "从第"@ + num(n) + "集开始。现在选简繁偏好（可后续 /edit 修改）:"@,
        Reply::Updated(id, field) => "✅ 已更新 #"@ + num(id) + " 的 "@ + field@,
        Reply::AskStart => "从第几集开始推送? (回复数字，默认 1，/cancel 取消)"@,
        Reply::AddCancelled => "已取消添加"@,
        Reply::SubAdded(id, title, start, lang) => "✅ 已添加订阅 <b>#"@ + num(id) + "</b> "@ + escape(title@) + "\n从"@
            + pad2(start as int) + "话起 · 简繁: "@ + lang@ + "\n绑定频道后即开始定时推送（/bind）"@,
        Reply::CurrentValue(cur) => "当前值: <b>"@ + escape(cur@) + "</b>\n输入新的值（/cancel 取消）:"@,
        Reply::ChooseLang(id) => "选择 #"@ + num(id) + " 的简繁偏好:"@,
        Reply::LangSet(id, lang) => "✅ #"@ + num(id) + " 简繁偏好已设为 "@ + lang@,
        Reply::Toggled(id, on, title) => "✅ #"@ + num(id) + " 已"@ + (if on {
            "启用"@
        } else {
            "停用"@
        }) + ": "@ + escape(title@),
        Reply::Deleted(id) => "🗑️ 已删除订阅 #"@ + num(id),
        Reply::CancelledShort => "已取消"@,
        Reply::FetchedAll(n, p, a) => "✅ 全部拉取完成: 新候选 "@ + int_text(n as int) + " · 推送 "@ + int_text(p as int)
            + " · 询问 "@ + int_text(a as int),
        Reply::PickSubscription(g) => "请选择要 /"@ + guided_name(g) + " 的订阅:"@,
        Reply::PickSwitch(g) => "/"@ + guided_name(g) + " 开还是关？"@,
        Reply::AskValue(g) => value_prompt(g),
    }
}

/// `<head><n><tail>`.
fn num_text(head: &str, n: i64, tail: &str) -> (r: String)
    ensures
        r@ == head@ + num(n) + tail@,
{
    let mut m = String::new();
    push_str(&mut m, head);
    push_chars(&mut m, i64_text(n).as_slice());
    push_str(&mut m, tail);
    m
}

/// `<head><n>`.
fn head_num(head: &str, n: i64) -> (r: String)
    ensures
        r@ == head@ + num(n),
{
    let mut m = String::new();
    push_str(&mut m, head);
    push_chars(&mut m, i64_text(n).as_slice());
    m
}

/// A fixed text.
fn fixed(t: &str) -> (r: String)
    ensures
        r@ == t@,
{
    let mut m = String::new();
    push_str(&mut m, t);
    m
}

fn push_num(m: &mut String, n: i64)
    ensures
        final(m)@ == old(m)@ + num(n),
{
    push_chars(m, i64_text(n).as_slice());
}

fn push_count(m: &mut String, n: usize)
    ensures
        final(m)@ == old(m)@ + int_text(n as int),
{
    push_chars(m, decimal_chars(n as u64).as_slice());
}

fn switch_of(b: bool) -> (r: &'static str)
    ensures
        r@ == switch_text(b),
{
    if b {
        "开"
    } else {
        "关"
    }
}

/// The text of a reply.
pub fn reply(r: &Reply) -> (t: String)
    ensures
        t@ == reply_text(*r),
{
    match r {
        Reply::BecameAdmin(id) => num_text("✅ 你已成为管理员 (id=", *id, ")"),
        Reply::AdminSet(id) => head_num("✅ 管理员已设为 ", *id),
        Reply::AdminIs(id) => head_num("管理员已是 ", *id),
        Reply::ChannelBound(id) => head_num("✅ 已绑定频道 ", *id),
        Reply::BindPrompt => fixed(
            "📣 请<b>转发一条来自目标频道</b>的消息给我（先把机器人加为该频道管理员），或直接发 /bind <频道ID>",
        ),
        Reply::SubUsage => fixed("用法: /sub <蜜柑RSS链接>\n例如 /sub https://mikanani.me/RSS/xxxxxx"),
        Reply::NoSubs => fixed("📭 还没有订阅，用 /sub <RSS链接> 添加"),
        Reply::NotFound(id) => head_num("未找到订阅 #", *id),
        Reply::EditTitle(id) => num_text("编辑订阅 <b>#", *id, "</b>"),
        Reply::DeleteConfirm(title, id) => {
            let mut m = fixed("确认删除订阅 <b>");
            push_str(&mut m, html_escape(title.as_str()).as_str());
            push_str(&mut m, "</b> (#");
            push_num(&mut m, *id);
            push_str(&mut m, ")?");
            m
        },
        Reply::Fetched(id, n, p, a) => {
            let mut m = num_text("✅ #", *id, " 拉取完成: 新候选 ");
            push_count(&mut m, *n);
            push_str(&mut m, " · 推送 ");
            push_count(&mut m, *p);
            push_str(&mut m, " · 询问 ");
            push_count(&mut m, *a);
            m
        },
        Reply::TestSent => fixed("✅ 测试消息已发送到频道"),
        Reply::NoSubToTest => fixed("没有订阅可做测试，先 /sub 添加一个"),
        Reply::NoChannel => fixed("⚠️ 尚未绑定频道，用 /bind 绑定"),
        Reply::Cancelled => fixed("已取消当前操作"),
        Reply::RssSwitched(b) => {
            let mut m = fixed("✅ RSS 轮询总开关: ");
            push_str(&mut m, switch_of(*b));
            m
        },
        Reply::IntervalSet(n) => {
            let mut m = fixed("✅ 轮询间隔设为 ");
            push_chars(&mut m, decimal_chars(*n).as_slice());
            push_str(&mut m, " 分钟");
            m
        },
        Reply::SkipHalfSwitched(b) => {
            let mut m = fixed("✅ 跳过 .5 特殊集: ");
            push_str(&mut m, switch_of(*b));
            m
        },
        Reply::GapSwitched(b) => {
            let mut m = fixed("✅ 遗漏检测通知: ");
            push_str(&mut m, switch_of(*b));
            m
        },
        Reply::SlackSet(d) => if *d > 0 {
            num_text("✅ 摸鱼检测: ", *d, " 天没更新会通知")
        } else {
            fixed("✅ 摸鱼检测已关闭")
        },
        Reply::AutoDisableSwitched(b) => {
            let mut m = fixed("✅ 全部集数推送后自动停用订阅: ");
            push_str(&mut m, switch_of(*b));
            m
        },
        Reply::TotalUsage => fixed("用法: /total <订阅ID> <总集数>"),
        Reply::TotalSet(id, n) => {
            let mut m = num_text("✅ #", *id, " 总集数设为 ");
            push_num(&mut m, *n);
            m
        },
        Reply::BgmUsage => fixed("用法: /bgm <订阅ID> <Bangumi主题ID>\n可在 bgm.tv 番剧详情页 URL 里找到 ID"),
        Reply::BgmBound(id, bgm, total) => match total {
            Some(t) => {
                let mut m = num_text("✅ #", *id, " 绑定 BGM ");
                push_num(&mut m, *bgm);
                push_str(&mut m, "，总集数 ");
                push_num(&mut m, *t);
                m
            },
            None => {
                let mut m = num_text("✅ #", *id, " 已绑定 BGM ");
                push_num(&mut m, *bgm);
                push_str(&mut m, "（暂时取不到总集数，稍后会自动刷新）");
                m
            },
        },
        Reply::BackupUsage => fixed("用法: /backup <订阅ID> <备用RSS链接>"),
        Reply::BackupSet(id) => num_text("✅ #", *id, " 备用 RSS 已设置"),
        Reply::BackupRemoved(id) => num_text("✅ #", *id, " 备用 RSS 已移除"),
        Reply::Unknown => fixed("未知命令，发送 /help 查看帮助"),
        Reply::SubPreview(title) => {
            let mut m = fixed("识别到的番名可能是:\n<b>");
            push_str(&mut m, html_escape(title.as_str()).as_str());
            push_str(&mut m, "</b>\n\n确认后设置起始集和简繁偏好。");
            m
        },
        Reply::ChannelBoundBold(id) => num_text("✅ 已绑定频道 <b>", *id, "</b>"),
        Reply::ForwardPrompt => fixed("请<b>转发一条来自目标频道</b>的消息，或 /cancel 取消"),
        Reply::ConfirmPrompt => fixed("请点击上方按钮确认，或 /cancel 取消"),
        Reply::StartFrom(n) => num_text("从第", *n, "集开始。现在选简繁偏好（可后续 /edit 修改）:"),
        Reply::Updated(id, field) => {
            let mut m = num_text("✅ 已更新 #", *id, " 的 ");
            push_str(&mut m, field.as_str());
            m
        },
        Reply::AskStart => fixed("从第几集开始推送? (回复数字，默认 1，/cancel 取消)"),
        Reply::AddCancelled => fixed("已取消添加"),
        Reply::SubAdded(id, title, start, lang) => {
            let mut m = num_text("✅ 已添加订阅 <b>#", *id, "</b> ");
            push_str(&mut m, html_escape(title.as_str()).as_str());
            push_str(&mut m, "\n从");
            push_chars(&mut m, i64_pad2(*start).as_slice());
            push_str(&mut m, "话起 · 简繁: ");
            push_str(&mut m, lang.as_str());
            push_str(&mut m, "\n绑定频道后即开始定时推送（/bind）");
            m
        },
        Reply::CurrentValue(cur) => {
            let mut m = fixed("当前值: <b>");
            push_str(&mut m, html_escape(cur.as_str()).as_str());
            push_str(&mut m, "</b>\n输入新的值（/cancel 取消）:");
            m
        },
        Reply::ChooseLang(id) => num_text("选择 #", *id, " 的简繁偏好:"),
        Reply::LangSet(id, lang) => {
            let mut m = num_text("✅ #", *id, " 简繁偏好已设为 ");
            push_str(&mut m, lang.as_str());
            m
        },
        Reply::Toggled(id, on, title) => {
            let mut m = num_text("✅ #", *id, " 已");
            push_str(&mut m, if *on { "启用" } else { "停用" });
            push_str(&mut m, ": ");
            push_str(&mut m, html_escape(title.as_str()).as_str());
            m
        },
        Reply::Deleted(id) => head_num("🗑️ 已删除订阅 #", *id),
        Reply::CancelledShort => fixed("已取消"),
        Reply::FetchedAll(n, p, a) => {
            let mut m = fixed("✅ 全部拉取完成: 新候选 ");
            push_count(&mut m, *n);
            push_str(&mut m, " · 推送 ");
            push_count(&mut m, *p);
            push_str(&mut m, " · 询问 ");
            push_count(&mut m, *a);
            m
        },
        Reply::PickSubscription(g) => {
            let mut m = fixed("请选择要 /");
            push_str(&mut m, guided_name_of(*g));
            push_str(&mut m, " 的订阅:");
            m
        },
        Reply::PickSwitch(g) => {
            let mut m = fixed("/");
            push_str(&mut m, guided_name_of(*g));
            push_str(&mut m, " 开还是关？");
            m
        },
        Reply::AskValue(g) => fixed(value_prompt_of(*g)),
    }
}

} // verus!
