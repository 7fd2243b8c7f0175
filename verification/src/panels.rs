//! The longer texts and the keyboards the bot shows: the help, a
//! subscription's details, the list of subscriptions, the status, the tail
//! of the log, and the buttons under the messages.
use vstd::prelude::*;
use crate::models::{Candidate, SubRow};
use crate::notifier::{escape, html_escape, join, join_chars, push_chars};
use crate::num::{decimal_chars, i64_pad2, i64_text, int_text, pad2};
use crate::parser::{parse_title, spec_parse_title};
use crate::replies::{num, switch_text};
use crate::text::{chars_of, push_str, split, split_chars, str_eq, string_of};

verus! {

/// The lines of the help text.
pub open spec fn help_lines() -> Seq<Seq<char>> {
    seq![
        "🤖 <b>BTBoy 自动追番</b>"@,
        ""@,
        "<b>订阅管理</b>"@,
        "/sub <rss> — 添加订阅（蜜柑RSS）"@,
        "/list — 列出所有订阅"@,
        "/show <id> — 订阅详情"@,
        "/edit <id> — 编辑（起始集/简繁/关键词/启停/删除）"@,
        "/del <id> — 删除"@,
        "/push <id> — 立即拉取推送一次"@,
        ""@,
        "<b>全局设置</b>"@,
        "/bind [频道ID] — 绑定推送频道（转发一条频道消息即可）"@,
        "/rss on|off — RSS 轮询总开关"@,
        "/interval <分钟> — 轮询间隔"@,
        "/skiphalf on|off — 跳过 07.5 这类特殊集"@,
        "/gap on|off — 遗漏检测（缺集通知）"@,
        "/slack <天数>|off — 摸鱼检测（N 天无更新通知）"@,
        "/autodisable on|off — 全部集数推完后自动停用"@,
        ""@,
        "<b>订阅级</b>"@,
        "/total <id> <n> — 手动设总集数"@,
        "/bgm <id> <bgmid> — 绑定 Bangumi 自动获取总集数"@,
        "/backup <id> <rss> — 设置备用 RSS（主源无更新时兜底）"@,
        "/rmbackup <id> — 移除备用 RSS"@,
        ""@,
        "<b>其他</b>"@,
        "/test — 发测试消息到频道"@,
        "/status — 状态"@,
        "/logs [行数] — 查看日志"@,
        "/cancel — 取消当前对话"@,
        "/admin [id] — 首个使用者成为管理员"@
    ]
}

/// The character vectors of some texts.
fn char_lines(parts: &[&str]) -> (r: Vec<Vec<char>>)
    ensures
        r.deep_view() == Seq::new(parts@.len(), |i: int| parts@[i]@),
{
    let mut v: Vec<Vec<char>> = Vec::new();
    let mut k: usize = 0;
    while k < parts.len()
        invariant
            k <= parts.len(),
            v.len() == k,
            forall|j: int| 0 <= j < k ==> #[trigger] v@[j]@ == parts@[j]@,
        decreases parts.len() - k,
    {
        v.push(chars_of(parts[k]));
        k = k + 1;
    }
    assert(v.deep_view() =~= Seq::new(parts@.len(), |i: int| parts@[i]@)) by {
        assert forall|j: int| 0 <= j < v.len() implies v.deep_view()[j] == parts@[j]@ by {
            assert(v@[j]@ == parts@[j]@);
        }
    }
    v
}

/// The help text: its lines joined by newlines.
#[verifier::rlimit(40)]
pub fn help_text() -> (r: String)
    ensures
        r@ == join(help_lines(), "\n"@),
{
    let lines: [&str; 31] = [
        "🤖 <b>BTBoy 自动追番</b>",
        "",
        "<b>订阅管理</b>",
        "/sub <rss> — 添加订阅（蜜柑RSS）",
        "/list — 列出所有订阅",
        "/show <id> — 订阅详情",
        "/edit <id> — 编辑（起始集/简繁/关键词/启停/删除）",
        "/del <id> — 删除",
        "/push <id> — 立即拉取推送一次",
        "",
        "<b>全局设置</b>",
        "/bind [频道ID] — 绑定推送频道（转发一条频道消息即可）",
        "/rss on|off — RSS 轮询总开关",
        "/interval <分钟> — 轮询间隔",
        "/skiphalf on|off — 跳过 07.5 这类特殊集",
        "/gap on|off — 遗漏检测（缺集通知）",
        "/slack <天数>|off — 摸鱼检测（N 天无更新通知）",
        "/autodisable on|off — 全部集数推完后自动停用",
        "",
        "<b>订阅级</b>",
        "/total <id> <n> — 手动设总集数",
        "/bgm <id> <bgmid> — 绑定 Bangumi 自动获取总集数",
        "/backup <id> <rss> — 设置备用 RSS（主源无更新时兜底）",
        "/rmbackup <id> — 移除备用 RSS",
        "",
        "<b>其他</b>",
        "/test — 发测试消息到频道",
        "/status — 状态",
        "/logs [行数] — 查看日志",
        "/cancel — 取消当前对话",
        "/admin [id] — 首个使用者成为管理员",
    ];
    let v = char_lines(lines.as_slice());
    assert(v.deep_view() =~= help_lines());
    join_chars(&v, "\n")
}

/// A subscription's language preference as shown: `ask` when it is empty.
pub open spec fn lang_shown(pref: Seq<char>) -> Seq<char> {
    if pref.len() == 0 || pref == "ask"@ {
        "ask"@
    } else {
        pref
    }
}

/// A text, or `-` when it is empty.
pub open spec fn or_dash(s: Seq<char>) -> Seq<char> {
    if s.len() == 0 {
        "-"@
    } else {
        s
    }
}

/// An optional number, or `-`.
pub open spec fn opt_num(n: Option<i64>) -> Seq<char> {
    match n {
        Some(v) => num(v),
        None => "-"@,
    }
}

/// An optional text, or `-`.
pub open spec fn opt_text(s: Option<String>) -> Seq<char> {
    match s {
        Some(t) => t@,
        None => "-"@,
    }
}

/// The details of a subscription.
pub open spec fn spec_sub_detail(s: SubRow) -> Seq<char> {
    "<b>#"@ + num(s.id) + " "@ + escape(s.title@) + "</b>\n状态: "@ + (if s.enabled {
        "🟢 启用"@
    } else {
        "⏸️ 停用"@
    }) + "\nRSS: "@ + escape(s.rss_url@) + "\n起始集: "@ + pad2(s.start_episode as int) + " · 简繁: "@ + lang_shown(
        s.lang_pref@,
    ) + "\n包含词: "@ + or_dash(s.include_kw@) + " · 排除词: "@ + or_dash(s.exclude_kw@) + "\n备用 RSS: "@ + or_dash(
        s.backup_rss_url@,
    ) + "\n总集数: "@ + opt_num(s.total_episodes) + "\nBGM ID: "@ + opt_num(s.bgm_id) + "\n上次拉取: "@ + opt_text(
        s.last_fetch_at,
    ) + "\n上次推送: "@ + opt_text(s.last_push_at) + "\n创建: "@ + s.created_at@
}

fn push_lang_shown(m: &mut String, pref: &str)
    ensures
        final(m)@ == old(m)@ + lang_shown(pref@),
{
    if pref.is_empty() || str_eq(pref, "ask") {
        push_str(m, "ask");
    } else {
        push_str(m, pref);
    }
}

fn push_or_dash(m: &mut String, s: &str)
    ensures
        final(m)@ == old(m)@ + or_dash(s@),
{
    if s.is_empty() {
        push_str(m, "-");
    } else {
        push_str(m, s);
    }
}

fn push_opt_num(m: &mut String, n: Option<i64>)
    ensures
        final(m)@ == old(m)@ + opt_num(n),
{
    match n {
        Some(v) => push_chars(m, i64_text(v).as_slice()),
        None => push_str(m, "-"),
    }
}

fn push_opt_text(m: &mut String, s: &Option<String>)
    ensures
        final(m)@ == old(m)@ + opt_text(*s),
{
    match s {
        Some(t) => push_str(m, t.as_str()),
        None => push_str(m, "-"),
    }
}

/// The details of a subscription.
#[verifier::rlimit(40)]
pub fn sub_detail(s: &SubRow) -> (r: String)
    ensures
        r@ == spec_sub_detail(*s),
{
    let mut m = String::new();
    push_str(&mut m, "<b>#");
    push_chars(&mut m, i64_text(s.id).as_slice());
    push_str(&mut m, " ");
    push_str(&mut m, html_escape(s.title.as_str()).as_str());
    push_str(&mut m, "</b>\n状态: ");
    push_str(&mut m, if s.enabled { "🟢 启用" } else { "⏸️ 停用" });
    push_str(&mut m, "\nRSS: ");
    push_str(&mut m, html_escape(s.rss_url.as_str()).as_str());
    push_str(&mut m, "\n起始集: ");
    push_chars(&mut m, i64_pad2(s.start_episode).as_slice());
    push_str(&mut m, " · 简繁: ");
    push_lang_shown(&mut m, s.lang_pref.as_str());
    push_str(&mut m, "\n包含词: ");
    push_or_dash(&mut m, s.include_kw.as_str());
    push_str(&mut m, " · 排除词: ");
    push_or_dash(&mut m, s.exclude_kw.as_str());
    push_str(&mut m, "\n备用 RSS: ");
    push_or_dash(&mut m, s.backup_rss_url.as_str());
    push_str(&mut m, "\n总集数: ");
    push_opt_num(&mut m, s.total_episodes);
    push_str(&mut m, "\nBGM ID: ");
    push_opt_num(&mut m, s.bgm_id);
    push_str(&mut m, "\n上次拉取: ");
    push_opt_text(&mut m, &s.last_fetch_at);
    push_str(&mut m, "\n上次推送: ");
    push_opt_text(&mut m, &s.last_push_at);
    push_str(&mut m, "\n创建: ");
    push_str(&mut m, s.created_at.as_str());
    m
}

/// A subscription's line in the list: its state, id, title, first episode,
/// language, whether it has a backup feed, then its feed on its own line.
pub open spec fn list_line(s: SubRow) -> Seq<char> {
    (if s.enabled {
        "🟢"@
    } else {
        "⏸️"@
    }) + " <b>#"@ + num(s.id) + "</b> "@ + escape(s.title@) + " · 从"@ + pad2(s.start_episode as int) + "话起 · "@
        + lang_shown(s.lang_pref@) + (if s.backup_rss_url@.len() > 0 {
        " 📦备用"@
    } else {
        Seq::empty()
    }) + "\n    "@ + escape(s.rss_url@)
}

/// The list of subscriptions: their lines, separated by empty lines.
pub open spec fn spec_list_text(subs: Seq<SubRow>) -> Seq<char> {
    join(Seq::new(subs.len(), |i: int| list_line(subs[i])), "\n\n"@)
}

fn list_line_of(s: &SubRow) -> (r: Vec<char>)
    ensures
        r@ == list_line(*s),
{
    let mut m = String::new();
    push_str(&mut m, if s.enabled { "🟢" } else { "⏸️" });
    push_str(&mut m, " <b>#");
    push_chars(&mut m, i64_text(s.id).as_slice());
    push_str(&mut m, "</b> ");
    push_str(&mut m, html_escape(s.title.as_str()).as_str());
    push_str(&mut m, " · 从");
    push_chars(&mut m, i64_pad2(s.start_episode).as_slice());
    push_str(&mut m, "话起 · ");
    push_lang_shown(&mut m, s.lang_pref.as_str());
    let ghost before = m@;
    if !s.backup_rss_url.as_str().is_empty() {
        push_str(&mut m, " 📦备用");
    } else {
        assert(m@ =~= before + Seq::<char>::empty());
    }
    push_str(&mut m, "\n    ");
    push_str(&mut m, html_escape(s.rss_url.as_str()).as_str());
    chars_of(m.as_str())
}

/// The list of subscriptions.
pub fn list_text(subs: &[SubRow]) -> (r: String)
    ensures
        r@ == spec_list_text(subs@),
{
    let mut v: Vec<Vec<char>> = Vec::new();
    let mut k: usize = 0;
    while k < subs.len()
        invariant
            k <= subs.len(),
            v.len() == k,
            forall|j: int| 0 <= j < k ==> #[trigger] v@[j]@ == list_line(subs@[j]),
        decreases subs.len() - k,
    {
        v.push(list_line_of(&subs[k]));
        k = k + 1;
    }
    assert(v.deep_view() =~= Seq::new(subs@.len(), |i: int| list_line(subs@[i]))) by {
        assert forall|j: int| 0 <= j < v.len() implies v.deep_view()[j] == list_line(subs@[j]) by {
            assert(v@[j]@ == list_line(subs@[j]));
        }
    }
    join_chars(&v, "\n\n")
}

/// What the status shows.
#[derive(Debug, Clone, Copy)]
pub struct Status {
    pub admin: Option<i64>,
    pub channel: Option<i64>,
    pub subscriptions: i64,
    pub pushed: i64,
    /// Seconds since start.
    pub uptime: u64,
    pub rss_on: bool,
    pub interval_min: i64,
    pub skip_half: bool,
    pub gap_detect: bool,
    pub slack_days: i64,
    pub autodisable: bool,
}

/// An optional id, or the given word.
pub open spec fn id_or(n: Option<i64>, none: Seq<char>) -> Seq<char> {
    match n {
        Some(v) => num(v),
        None => none,
    }
}

/// The status text.
pub open spec fn spec_status_text(s: Status) -> Seq<char> {
    "📊 <b>BTBoy 状态</b>\n管理员: "@ + id_or(s.admin, "未设置"@) + "\n推送频道: "@ + id_or(s.channel, "未绑定"@)
        + "\n订阅数: "@ + num(s.subscriptions) + " · 已推送: "@ + num(s.pushed) + "\n运行时长: "@ + int_text(
        s.uptime as int,
    ) + "s\n── 设置 ──\nRSS 总开关: "@ + switch_text(s.rss_on) + " · 轮询间隔: "@ + num(s.interval_min)
        + " 分钟\n跳过 .5 集: "@ + switch_text(s.skip_half) + " · 遗漏检测: "@ + switch_text(s.gap_detect)
        + " · 摸鱼检测: "@ + num(s.slack_days) + " 天 · 自动停用: "@ + switch_text(s.autodisable)
}

fn push_id_or(m: &mut String, n: Option<i64>, none: &str)
    ensures
        final(m)@ == old(m)@ + id_or(n, none@),
{
    match n {
        Some(v) => push_chars(m, i64_text(v).as_slice()),
        None => push_str(m, none),
    }
}

fn push_switch(m: &mut String, b: bool)
    ensures
        final(m)@ == old(m)@ + switch_text(b),
{
    push_str(m, if b { "开" } else { "关" });
}

/// The status text.
#[verifier::rlimit(40)]
pub fn status_text(s: &Status) -> (r: String)
    ensures
        r@ == spec_status_text(*s),
{
    let mut m = String::new();
    push_str(&mut m, "📊 <b>BTBoy 状态</b>\n管理员: ");
    push_id_or(&mut m, s.admin, "未设置");
    push_str(&mut m, "\n推送频道: ");
    push_id_or(&mut m, s.channel, "未绑定");
    push_str(&mut m, "\n订阅数: ");
    push_chars(&mut m, i64_text(s.subscriptions).as_slice());
    push_str(&mut m, " · 已推送: ");
    push_chars(&mut m, i64_text(s.pushed).as_slice());
    push_str(&mut m, "\n运行时长: ");
    push_chars(&mut m, decimal_chars(s.uptime).as_slice());
    push_str(&mut m, "s\n── 设置 ──\nRSS 总开关: ");
    push_switch(&mut m, s.rss_on);
    push_str(&mut m, " · 轮询间隔: ");
    push_chars(&mut m, i64_text(s.interval_min).as_slice());
    push_str(&mut m, " 分钟\n跳过 .5 集: ");
    push_switch(&mut m, s.skip_half);
    push_str(&mut m, " · 遗漏检测: ");
    push_switch(&mut m, s.gap_detect);
    push_str(&mut m, " · 摸鱼检测: ");
    push_chars(&mut m, i64_text(s.slack_days).as_slice());
    push_str(&mut m, " 天 · 自动停用: ");
    push_switch(&mut m, s.autodisable);
    m
}

/// The text of the log command: the escaped log, cut to 4000 characters,
/// preformatted.
pub open spec fn spec_logs_text(log: Seq<char>) -> Seq<char> {
    let e = escape(log);
    "<pre>"@ + (if e.len() <= 4000 {
        e
    } else {
        e.take(4000)
    }) + "</pre>"@
}

pub fn logs_text(log: &str) -> (r: String)
    ensures
        r@ == spec_logs_text(log@),
{
    let e = chars_of(html_escape(log).as_str());
    let n: usize = if e.len() <= 4000 { e.len() } else { 4000 };
    let cut = crate::text::slice_to_vec(e.as_slice(), 0, n);
    assert(cut@ =~= (if e@.len() <= 4000 {
        e@
    } else {
        e@.take(4000)
    }));
    let mut m = String::new();
    push_str(&mut m, "<pre>");
    push_chars(&mut m, cut.as_slice());
    push_str(&mut m, "</pre>");
    m
}

/// A line as `str::lines` gives it: without its final carriage return when
/// the line was ended by a newline.
pub open spec fn strip_cr(line: Seq<char>) -> Seq<char> {
    if line.len() > 0 && line.last() == '\r' {
        line.drop_last()
    } else {
        line
    }
}

/// `str::lines`: the text split at newlines, a final newline ending the last
/// line rather than starting an empty one, and a carriage return before a
/// newline dropped.
pub open spec fn text_lines(s: Seq<char>) -> Seq<Seq<char>> {
    let parts = split(s, '\n');
    if s.len() == 0 {
        seq![]
    } else if s.last() == '\n' {
        Seq::new((parts.len() - 1) as nat, |i: int| strip_cr(parts[i]))
    } else {
        Seq::new(parts.len(), |i: int| if i < parts.len() - 1 { strip_cr(parts[i]) } else { parts[i] })
    }
}

/// The last `n` lines of a text, joined by newlines.
pub open spec fn spec_last_lines(s: Seq<char>, n: usize) -> Seq<char> {
    let ls = text_lines(s);
    let start: int = if ls.len() > n { ls.len() - n } else { 0 };
    join(ls.skip(start), "\n"@)
}

proof fn lemma_split_len(s: Seq<char>, sep: char)
    ensures
        split(s, sep).len() >= 1,
        split(s, sep).len() <= s.len() + 1,
    decreases s.len(),
{
    crate::text::lemma_find_char(s, sep);
    match crate::text::find_char(s, sep) {
        None => {},
        Some(i) => {
            if 0 <= i < s.len() {
                lemma_split_len(s.skip(i + 1), sep);
            }
        },
    }
}

fn strip_cr_of(line: &Vec<char>) -> (r: Vec<char>)
    ensures
        r@ == strip_cr(line@),
{
    if line.len() > 0 && line[line.len() - 1] == '\r' {
        let r = crate::text::slice_to_vec(line.as_slice(), 0, line.len() - 1);
        assert(r@ =~= line@.drop_last());
        r
    } else {
        crate::text::slice_to_vec(line.as_slice(), 0, line.len())
    }
}

/// The last `n` lines of a text.
pub fn last_lines(s: &str, n: usize) -> (r: String)
    ensures
        r@ == spec_last_lines(s@, n),
{
    let cs = chars_of(s);
    let parts = split_chars(cs.as_slice(), '\n');
    proof {
        lemma_split_len(s@, '\n');
    }
    let ghost ls = text_lines(s@);
    let count: usize = if cs.len() == 0 {
        0
    } else if cs[cs.len() - 1] == '\n' {
        parts.len() - 1
    } else {
        parts.len()
    };
    assert(count == ls.len());
    let start: usize = if count > n { count - n } else { 0 };
    let mut out: Vec<Vec<char>> = Vec::new();
    let mut k: usize = start;
    while k < count
        invariant
            start <= k <= count,
            count == ls.len(),
            count <= parts.len(),
            ls == text_lines(s@),
            parts.deep_view() == split(s@, '\n'),
            cs@ == s@,
            count > 0 ==> cs@.len() > 0,
            count < parts.len() && cs@.len() > 0 ==> cs@.last() == '\n',
            count == parts.len() ==> cs@.len() > 0 && cs@.last() != '\n',
            out.len() == k - start,
            forall|j: int| 0 <= j < k - start ==> #[trigger] out@[j]@ == ls[start + j],
        decreases count - k,
    {
        let last_open = count == parts.len() && k == count - 1;
        let line = if last_open {
            crate::text::slice_to_vec(parts[k].as_slice(), 0, parts[k].len())
        } else {
            strip_cr_of(&parts[k])
        };
        assert(parts.deep_view()[k as int] == parts@[k as int]@);
        out.push(line);
        k = k + 1;
    }
    assert(out.deep_view() =~= ls.skip(start as int)) by {
        assert forall|j: int| 0 <= j < out.len() implies out.deep_view()[j] == ls.skip(start as int)[j] by {
            assert(out@[j]@ == ls[start + j]);
        }
    }
    join_chars(&out, "\n")
}

/// A button as values: its label and data.
pub type Button = (Seq<char>, Seq<char>);

/// The buttons to edit the subscription `id`.
pub open spec fn spec_edit_keyboard(id: i64) -> Seq<Seq<Button>> {
    let n = num(id);
    seq![
        seq![("起始集"@, "edit:"@ + n + ":start_episode"@), ("简繁"@, "editlangsel:"@ + n)],
        seq![("包含词"@, "edit:"@ + n + ":include_kw"@), ("排除词"@, "edit:"@ + n + ":exclude_kw"@)],
        seq![("启/停"@, "toggle:"@ + n), ("删除"@, "del:"@ + n)]
    ]
}

/// The buttons to confirm deleting the subscription `id`.
pub open spec fn spec_delete_keyboard(id: i64) -> Seq<Seq<Button>> {
    let n = num(id);
    seq![seq![("确认删除"@, "delc:"@ + n + ":yes"@), ("取消"@, "delc:"@ + n + ":no"@)]]
}

/// The buttons to confirm a new subscription's title.
pub open spec fn spec_confirm_keyboard() -> Seq<Seq<Button>> {
    seq![seq![("确认"@, "subc:yes"@), ("取消"@, "subc:no"@)]]
}

/// The language choices; the data of each is `<head><choice>`.
pub open spec fn lang_row(head: Seq<char>) -> Seq<Button> {
    seq![
        ("简中"@, head + "简中"@),
        ("繁中"@, head + "繁中"@),
        ("简繁都要"@, head + "简繁"@),
        ("每次问我"@, head + "ask"@)
    ]
}

/// A button `(label, <head><id><tail>)`.
pub(crate) fn id_button(label: &str, head: &str, id: i64, tail: &str) -> (r: (String, String))
    ensures
        (r.0@, r.1@) == (label@, head@ + num(id) + tail@),
{
    let mut l = String::new();
    push_str(&mut l, label);
    let mut d = String::new();
    push_str(&mut d, head);
    push_chars(&mut d, i64_text(id).as_slice());
    push_str(&mut d, tail);
    (l, d)
}

/// A button `(label, <head><tail>)`.
pub(crate) fn text_button(label: &str, head: &str, tail: &str) -> (r: (String, String))
    ensures
        (r.0@, r.1@) == (label@, head@ + tail@),
{
    let mut l = String::new();
    push_str(&mut l, label);
    let mut d = String::new();
    push_str(&mut d, head);
    push_str(&mut d, tail);
    (l, d)
}

fn row2(a: (String, String), b: (String, String)) -> (r: Vec<(String, String)>)
    ensures
        r.deep_view() == seq![(a.0@, a.1@), (b.0@, b.1@)],
{
    let ghost ga = (a.0@, a.1@);
    let ghost gb = (b.0@, b.1@);
    let mut v: Vec<(String, String)> = Vec::new();
    v.push(a);
    v.push(b);
    assert(v.deep_view() =~= seq![ga, gb]);
    v
}

/// The buttons to edit a subscription.
#[verifier::rlimit(40)]
pub fn edit_keyboard(id: i64) -> (r: Vec<Vec<(String, String)>>)
    ensures
        r.deep_view() == spec_edit_keyboard(id),
{
    let r1 = row2(id_button("起始集", "edit:", id, ":start_episode"), id_button("简繁", "editlangsel:", id, ""));
    let r2 = row2(id_button("包含词", "edit:", id, ":include_kw"), id_button("排除词", "edit:", id, ":exclude_kw"));
    let r3 = row2(id_button("启/停", "toggle:", id, ""), id_button("删除", "del:", id, ""));
    proof {
        reveal_strlit("");
    }
    let ghost g1 = r1.deep_view();
    let ghost g2 = r2.deep_view();
    let ghost g3 = r3.deep_view();
    let mut k: Vec<Vec<(String, String)>> = Vec::new();
    k.push(r1);
    k.push(r2);
    k.push(r3);
    assert(k.deep_view() =~= seq![g1, g2, g3]);
    assert(g1 =~= spec_edit_keyboard(id)[0]);
    assert(g3 =~= spec_edit_keyboard(id)[2]);
    k
}

/// The buttons to confirm a deletion.
pub fn delete_keyboard(id: i64) -> (r: Vec<Vec<(String, String)>>)
    ensures
        r.deep_view() == spec_delete_keyboard(id),
{
    let r1 = row2(id_button("确认删除", "delc:", id, ":yes"), id_button("取消", "delc:", id, ":no"));
    let ghost g1 = r1.deep_view();
    let mut k: Vec<Vec<(String, String)>> = Vec::new();
    k.push(r1);
    assert(k.deep_view() =~= seq![g1]);
    k
}

/// The buttons to confirm a new subscription's title.
pub fn confirm_keyboard() -> (r: Vec<Vec<(String, String)>>)
    ensures
        r.deep_view() == spec_confirm_keyboard(),
{
    let r1 = row2(text_button("确认", "subc:yes", ""), text_button("取消", "subc:no", ""));
    proof {
        reveal_strlit("");
    }
    let ghost g1 = r1.deep_view();
    let mut k: Vec<Vec<(String, String)>> = Vec::new();
    k.push(r1);
    assert(k.deep_view() =~= seq![g1]);
    assert(g1 =~= spec_confirm_keyboard()[0]);
    k
}

/// The language choices, each button's data being `<head><choice>`.
pub fn lang_keyboard(head: &str) -> (r: Vec<Vec<(String, String)>>)
    ensures
        r.deep_view() == seq![lang_row(head@)],
{
    let b1 = text_button("简中", head, "简中");
    let b2 = text_button("繁中", head, "繁中");
    let b3 = text_button("简繁都要", head, "简繁");
    let b4 = text_button("每次问我", head, "ask");
    let ghost g = seq![(b1.0@, b1.1@), (b2.0@, b2.1@), (b3.0@, b3.1@), (b4.0@, b4.1@)];
    let mut row: Vec<(String, String)> = Vec::new();
    row.push(b1);
    row.push(b2);
    row.push(b3);
    row.push(b4);
    assert(row.deep_view() =~= g);
    let ghost gr = row.deep_view();
    let mut k: Vec<Vec<(String, String)>> = Vec::new();
    k.push(row);
    assert(k.deep_view() =~= seq![gr]);
    k
}

/// The language choices for the subscription `id`: `editlang:<id>:<choice>`.
pub fn edit_lang_keyboard(id: i64) -> (r: Vec<Vec<(String, String)>>)
    ensures
        r.deep_view() == seq![lang_row("editlang:"@ + num(id) + ":"@)],
{
    let mut head = String::new();
    push_str(&mut head, "editlang:");
    push_chars(&mut head, i64_text(id).as_slice());
    push_str(&mut head, ":");
    lang_keyboard(head.as_str())
}

/// The candidate posted when testing the channel.
pub open spec fn test_candidate_of(title: Seq<char>, c: Candidate) -> bool {
    &&& c.title@ == title + " 测试"@
    &&& c.magnet@ == "magnet:?xt=urn:btih:TESTMAGNET"@
    &&& c.fansub is None
    &&& c.episode == 1
    &&& c.version == 1
    &&& c.lang@ == "简中"@
    &&& c.quality.deep_view() == Some("1080P"@)
    &&& c.codec is None
    &&& c.source is None
    &&& c.link@.len() == 0
}

/// The candidate posted to the channel to test it, named after the first
/// subscription.
pub fn test_candidate(title: &str) -> (r: Candidate)
    ensures
        test_candidate_of(title@, r),
{
    let mut t = String::new();
    push_str(&mut t, title);
    push_str(&mut t, " 测试");
    Candidate {
        title: t,
        magnet: "magnet:?xt=urn:btih:TESTMAGNET".to_owned(),
        fansub: None,
        episode: 1,
        version: 1,
        lang: "简中".to_owned(),
        quality: Some("1080P".to_owned()),
        codec: None,
        source: None,
        link: String::new(),
    }
}

/// The title proposed for a new subscription: the anime named by the first
/// item of its feed, or a note that none could be read.
pub open spec fn spec_preview_title(first: Option<Seq<char>>) -> Seq<char> {
    match first {
        Some(t) => if spec_parse_title(t).anime.len() > 0 {
            spec_parse_title(t).anime
        } else {
            "(无法自动识别番名)"@
        },
        None => "(无法自动识别番名)"@,
    }
}

pub fn preview_title(first: Option<&str>) -> (r: String)
    ensures
        r@ == spec_preview_title(
            match first {
                Some(t) => Some(t@),
                None => None,
            },
        ),
{
    match first {
        Some(t) => {
            let p = parse_title(t);
            if !p.anime.as_str().is_empty() {
                p.anime
            } else {
                "(无法自动识别番名)".to_owned()
            }
        },
        None => "(无法自动识别番名)".to_owned(),
    }
}

} // verus!
