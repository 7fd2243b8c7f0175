//! The bot's slash commands: a message taken apart into a command and its
//! arguments, who may use which command, and what each command's
//! arguments mean.
use vstd::prelude::*;
use crate::num::{parse_i64_spec, parse_unsigned, parse_i64_chars, parse_unsigned_chars};
use crate::replies::Reply;
use crate::text::{
    after_char, before_char, chars_of, is_ws, split_once_char, split_whitespace_chars, spec_lowercase,
    starts_with, str_eq, str_starts_with, string_of, to_lowercase, trim, trim_chars, words,
};

verus! {

/// What `parse_command` gives for a message text: a text that starts with
/// `/` after trimming is a command; its first word, lowercased and cut at
/// `@`, is the command's name, and the other words are its arguments.
pub open spec fn spec_parse_command(text: Seq<char>) -> Option<(Seq<char>, Seq<Seq<char>>)> {
    let t = trim(text);
    if t.len() > 0 && t[0] == '/' {
        let ws = words(t.drop_first());
        if ws.len() > 0 {
            Some((before_char(spec_lowercase(ws[0]), '@'), ws.drop_first()))
        } else {
            None
        }
    } else {
        None
    }
}

pub open spec fn command_view(r: Option<(String, Vec<String>)>) -> Option<(Seq<char>, Seq<Seq<char>>)> {
    match r {
        Some((c, a)) => Some((c@, a.deep_view())),
        None => None,
    }
}

/// The strings of character vectors.
fn strings_of(v: &Vec<Vec<char>>, from: usize) -> (r: Vec<String>)
    requires
        from <= v.len(),
    ensures
        r.deep_view() == v.deep_view().skip(from as int),
{
    let mut out: Vec<String> = Vec::new();
    let mut k: usize = from;
    while k < v.len()
        invariant
            from <= k <= v.len(),
            out.deep_view() == v.deep_view().subrange(from as int, k as int),
        decreases v.len() - k,
    {
        let ghost prev = out.deep_view();
        assert(v@[k as int].deep_view() =~= v@[k as int]@);
        out.push(string_of(v[k].as_slice()));
        assert(out.deep_view() =~= prev.push(v.deep_view()[k as int]));
        k = k + 1;
        assert(out.deep_view() =~= v.deep_view().subrange(from as int, k as int));
    }
    assert(v.deep_view().subrange(from as int, k as int) =~= v.deep_view().skip(from as int));
    out
}

/// Takes a message text apart into a command name and its arguments.
pub fn parse_command(text: &str) -> (r: Option<(String, Vec<String>)>)
    ensures
        command_view(r) == spec_parse_command(text@),
{
    let all = chars_of(text);
    let t = trim_chars(all.as_slice());
    if t.len() == 0 || t[0] != '/' {
        return None;
    }
    let rest = crate::text::slice_to_vec(t.as_slice(), 1, t.len());
    assert(rest@ =~= t@.drop_first());
    let ws = split_whitespace_chars(rest.as_slice());
    if ws.len() == 0 {
        return None;
    }
    let first = string_of(ws[0].as_slice());
    assert(first@ == ws.deep_view()[0]);
    let lower = to_lowercase(first.as_str());
    let lc = chars_of(lower.as_str());
    let (name, _) = split_once_char(lc.as_slice(), '@');
    let args = strings_of(&ws, 1);
    assert(ws.deep_view().skip(1) =~= ws.deep_view().drop_first());
    Some((string_of(name.as_slice()), args))
}

/// Who may use a command: the administrator may use all of them; anyone may
/// use `start`, `help` and `admin`.
pub open spec fn spec_command_allowed(cmd: Seq<char>, admin: Option<i64>, chat_id: i64) -> bool {
    admin == Some(chat_id) || cmd == "start"@ || cmd == "help"@ || cmd == "admin"@
}

pub fn command_allowed(cmd: &str, admin: Option<i64>, chat_id: i64) -> (r: bool)
    ensures
        r == spec_command_allowed(cmd@, admin, chat_id),
{
    let is_admin = match admin {
        Some(a) => a == chat_id,
        None => false,
    };
    is_admin || str_eq(cmd, "start") || str_eq(cmd, "help") || str_eq(cmd, "admin")
}

/// A switch's argument: only `off`, `关` and `0` turn it off; anything else,
/// nothing included, turns it on.
pub open spec fn spec_on_off(s: Seq<char>) -> bool {
    !(s == "off"@ || s == "关"@ || s == "0"@)
}

pub fn parse_on_off(s: &str) -> (r: bool)
    ensures
        r == spec_on_off(s@),
{
    !(str_eq(s, "off") || str_eq(s, "关") || str_eq(s, "0"))
}

/// How a switch is shown: `开` for on, `关` for off.
pub fn bool_str(b: bool) -> (r: &'static str)
    ensures
        r@ == (if b {
            "开"@
        } else {
            "关"@
        }),
{
    if b {
        "开"
    } else {
        "关"
    }
}

/// How a switch is stored: `1` for on, `0` for off.
pub fn switch_value(b: bool) -> (r: &'static str)
    ensures
        r@ == (if b {
            "1"@
        } else {
            "0"@
        }),
{
    if b {
        "1"
    } else {
        "0"
    }
}

/// The `i`-th argument.
pub open spec fn arg(args: Seq<Seq<char>>, i: int) -> Option<Seq<char>> {
    if 0 <= i < args.len() {
        Some(args[i])
    } else {
        None
    }
}

/// The `i`-th argument as an `i64`, when it is one.
pub open spec fn arg_i64(args: Seq<Seq<char>>, i: int) -> Option<i64> {
    match arg(args, i) {
        Some(a) => match parse_i64_spec(a) {
            Some(v) => Some(v as i64),
            None => None,
        },
        None => None,
    }
}

/// The first argument as a subscription id, 0 when it is none.
pub open spec fn arg_id(args: Seq<Seq<char>>) -> i64 {
    match arg_i64(args, 0) {
        Some(v) => v,
        None => 0,
    }
}

/// The first argument as a switch, on when it is missing.
pub open spec fn arg_switch(args: Seq<Seq<char>>) -> bool {
    match arg(args, 0) {
        Some(a) => spec_on_off(a),
        None => true,
    }
}

/// Whether a text may be a feed's address: it starts with `http`.
pub open spec fn is_feed_url(u: Seq<char>) -> bool {
    u.len() > 0 && starts_with(u, "http"@)
}

/// The commands that take arguments and, sent without any, guide the
/// administrator instead: by a choice of subscription, a choice of on or
/// off, or a question for the value.
#[derive(Debug, Clone, Copy, PartialEq, Eq, Structural)]
pub enum GuidedCmd {
    Sub,
    Show,
    Edit,
    Del,
    Push,
    Rss,
    Interval,
    SkipHalf,
    Gap,
    Slack,
    AutoDisable,
    Total,
    Bgm,
    Backup,
    RmBackup,
}

/// How a command sent without arguments guides.
#[derive(Debug, Clone, Copy, PartialEq, Eq, Structural)]
pub enum Guide {
    /// A button for each subscription (and, for `push`, one for all of them).
    PickSubscription,
    /// Buttons for on and off.
    Switch,
    /// A question whose answer is the argument.
    Value,
}

/// The command's name.
pub open spec fn guided_name(g: GuidedCmd) -> Seq<char> {
    match g {
        GuidedCmd::Sub => "sub"@,
        GuidedCmd::Show => "show"@,
        GuidedCmd::Edit => "edit"@,
        GuidedCmd::Del => "del"@,
        GuidedCmd::Push => "push"@,
        GuidedCmd::Rss => "rss"@,
        GuidedCmd::Interval => "interval"@,
        GuidedCmd::SkipHalf => "skiphalf"@,
        GuidedCmd::Gap => "gap"@,
        GuidedCmd::Slack => "slack"@,
        GuidedCmd::AutoDisable => "autodisable"@,
        GuidedCmd::Total => "total"@,
        GuidedCmd::Bgm => "bgm"@,
        GuidedCmd::Backup => "backup"@,
        GuidedCmd::RmBackup => "rmbackup"@,
    }
}

/// The guided command a name names.
pub open spec fn guided_of(cmd: Seq<char>) -> Option<GuidedCmd> {
    if cmd == "sub"@ {
        Some(GuidedCmd::Sub)
    } else if cmd == "show"@ {
        Some(GuidedCmd::Show)
    } else if cmd == "edit"@ {
        Some(GuidedCmd::Edit)
    } else if cmd == "del"@ {
        Some(GuidedCmd::Del)
    } else if cmd == "push"@ {
        Some(GuidedCmd::Push)
    } else if cmd == "rss"@ {
        Some(GuidedCmd::Rss)
    } else if cmd == "interval"@ {
        Some(GuidedCmd::Interval)
    } else if cmd == "skiphalf"@ {
        Some(GuidedCmd::SkipHalf)
    } else if cmd == "gap"@ {
        Some(GuidedCmd::Gap)
    } else if cmd == "slack"@ {
        Some(GuidedCmd::Slack)
    } else if cmd == "autodisable"@ {
        Some(GuidedCmd::AutoDisable)
    } else if cmd == "total"@ {
        Some(GuidedCmd::Total)
    } else if cmd == "bgm"@ {
        Some(GuidedCmd::Bgm)
    } else if cmd == "backup"@ {
        Some(GuidedCmd::Backup)
    } else if cmd == "rmbackup"@ {
        Some(GuidedCmd::RmBackup)
    } else {
        None
    }
}

/// How each guided command guides.
pub open spec fn guide_of(g: GuidedCmd) -> Guide {
    match g {
        GuidedCmd::Show | GuidedCmd::Edit | GuidedCmd::Del | GuidedCmd::Push | GuidedCmd::Total | GuidedCmd::Bgm
        | GuidedCmd::Backup | GuidedCmd::RmBackup => Guide::PickSubscription,
        GuidedCmd::Rss | GuidedCmd::SkipHalf | GuidedCmd::Gap | GuidedCmd::AutoDisable => Guide::Switch,
        GuidedCmd::Sub | GuidedCmd::Interval | GuidedCmd::Slack => Guide::Value,
    }
}

/// The guided command a name names.
pub fn guided_word(cmd: &str) -> (r: Option<GuidedCmd>)
    ensures
        r == guided_of(cmd@),
{
    if str_eq(cmd, "sub") {
        Some(GuidedCmd::Sub)
    } else if str_eq(cmd, "show") {
        Some(GuidedCmd::Show)
    } else if str_eq(cmd, "edit") {
        Some(GuidedCmd::Edit)
    } else if str_eq(cmd, "del") {
        Some(GuidedCmd::Del)
    } else if str_eq(cmd, "push") {
        Some(GuidedCmd::Push)
    } else if str_eq(cmd, "rss") {
        Some(GuidedCmd::Rss)
    } else if str_eq(cmd, "interval") {
        Some(GuidedCmd::Interval)
    } else if str_eq(cmd, "skiphalf") {
        Some(GuidedCmd::SkipHalf)
    } else if str_eq(cmd, "gap") {
        Some(GuidedCmd::Gap)
    } else if str_eq(cmd, "slack") {
        Some(GuidedCmd::Slack)
    } else if str_eq(cmd, "autodisable") {
        Some(GuidedCmd::AutoDisable)
    } else if str_eq(cmd, "total") {
        Some(GuidedCmd::Total)
    } else if str_eq(cmd, "bgm") {
        Some(GuidedCmd::Bgm)
    } else if str_eq(cmd, "backup") {
        Some(GuidedCmd::Backup)
    } else if str_eq(cmd, "rmbackup") {
        Some(GuidedCmd::RmBackup)
    } else {
        None
    }
}

/// The name of a guided command.
pub fn guided_name_of(g: GuidedCmd) -> (r: &'static str)
    ensures
        r@ == guided_name(g),
{
    match g {
        GuidedCmd::Sub => "sub",
        GuidedCmd::Show => "show",
        GuidedCmd::Edit => "edit",
        GuidedCmd::Del => "del",
        GuidedCmd::Push => "push",
        GuidedCmd::Rss => "rss",
        GuidedCmd::Interval => "interval",
        GuidedCmd::SkipHalf => "skiphalf",
        GuidedCmd::Gap => "gap",
        GuidedCmd::Slack => "slack",
        GuidedCmd::AutoDisable => "autodisable",
        GuidedCmd::Total => "total",
        GuidedCmd::Bgm => "bgm",
        GuidedCmd::Backup => "backup",
        GuidedCmd::RmBackup => "rmbackup",
    }
}

/// How a guided command guides.
pub fn guide_kind(g: GuidedCmd) -> (r: Guide)
    ensures
        r == guide_of(g),
{
    match g {
        GuidedCmd::Show | GuidedCmd::Edit | GuidedCmd::Del | GuidedCmd::Push | GuidedCmd::Total | GuidedCmd::Bgm
        | GuidedCmd::Backup | GuidedCmd::RmBackup => Guide::PickSubscription,
        GuidedCmd::Rss | GuidedCmd::SkipHalf | GuidedCmd::Gap | GuidedCmd::AutoDisable => Guide::Switch,
        GuidedCmd::Sub | GuidedCmd::Interval | GuidedCmd::Slack => Guide::Value,
    }
}

/// A command with its arguments read.
#[derive(Debug)]
pub enum Command {
    /// `start`, `help`: the help text.
    Help,
    /// `admin [id]`.
    Admin(Option<i64>),
    /// `bind [channel]`.
    Bind(Option<i64>),
    /// `sub <feed>` with a feed address.
    Sub(String),
    /// `sub` without a feed address: show its usage.
    SubUsage,
    /// `list`.
    List,
    /// `show <id>`.
    Show(i64),
    /// `edit <id>`.
    Edit(i64),
    /// `del <id>`.
    Del(i64),
    /// `push <id>`.
    Push(i64),
    /// `test`.
    Test,
    /// `status`.
    Status,
    /// `logs [n]`: the number of lines, at most 200.
    Logs(usize),
    /// `cancel`.
    Cancel,
    /// `rss on|off`.
    Rss(bool),
    /// `interval <minutes>`: between 1 and 1440, else 5.
    Interval(u64),
    /// `skiphalf on|off`.
    SkipHalf(bool),
    /// `gap on|off`.
    Gap(bool),
    /// `slack <days>|off`: 0 turns the check off.
    Slack(i64),
    /// `autodisable on|off`.
    AutoDisable(bool),
    /// `total <id> <n>`.
    Total(i64, i64),
    /// `total` with missing or bad arguments.
    TotalUsage,
    /// `bgm <id> <subject>`.
    Bgm(i64, i64),
    /// `bgm` with missing or bad arguments.
    BgmUsage,
    /// `backup <id> <feed>`.
    Backup(i64, String),
    /// `backup` with missing or bad arguments.
    BackupUsage,
    /// `rmbackup <id>`.
    RmBackup(i64),
    /// `push all`: poll every enabled subscription now.
    PushAll,
    /// A command that takes arguments, sent without any: guide the
    /// administrator to them.
    Guided(GuidedCmd),
    /// Any other name.
    Unknown,
}

/// A command as values.
pub enum CommandView {
    Help,
    Admin(Option<i64>),
    Bind(Option<i64>),
    Sub(Seq<char>),
    SubUsage,
    List,
    Show(i64),
    Edit(i64),
    Del(i64),
    Push(i64),
    Test,
    Status,
    Logs(usize),
    Cancel,
    Rss(bool),
    Interval(u64),
    SkipHalf(bool),
    Gap(bool),
    Slack(i64),
    AutoDisable(bool),
    Total(i64, i64),
    TotalUsage,
    Bgm(i64, i64),
    BgmUsage,
    Backup(i64, Seq<char>),
    BackupUsage,
    RmBackup(i64),
    PushAll,
    Guided(GuidedCmd),
    Unknown,
}

impl View for Command {
    type V = CommandView;

    open spec fn view(&self) -> CommandView {
        match self {
            Command::Help => CommandView::Help,
            Command::Admin(a) => CommandView::Admin(*a),
            Command::Bind(a) => CommandView::Bind(*a),
            Command::Sub(u) => CommandView::Sub(u@),
            Command::SubUsage => CommandView::SubUsage,
            Command::List => CommandView::List,
            Command::Show(i) => CommandView::Show(*i),
            Command::Edit(i) => CommandView::Edit(*i),
            Command::Del(i) => CommandView::Del(*i),
            Command::Push(i) => CommandView::Push(*i),
            Command::Test => CommandView::Test,
            Command::Status => CommandView::Status,
            Command::Logs(n) => CommandView::Logs(*n),
            Command::Cancel => CommandView::Cancel,
            Command::Rss(b) => CommandView::Rss(*b),
            Command::Interval(n) => CommandView::Interval(*n),
            Command::SkipHalf(b) => CommandView::SkipHalf(*b),
            Command::Gap(b) => CommandView::Gap(*b),
            Command::Slack(d) => CommandView::Slack(*d),
            Command::AutoDisable(b) => CommandView::AutoDisable(*b),
            Command::Total(i, n) => CommandView::Total(*i, *n),
            Command::TotalUsage => CommandView::TotalUsage,
            Command::Bgm(i, n) => CommandView::Bgm(*i, *n),
            Command::BgmUsage => CommandView::BgmUsage,
            Command::Backup(i, u) => CommandView::Backup(*i, u@),
            Command::BackupUsage => CommandView::BackupUsage,
            Command::RmBackup(i) => CommandView::RmBackup(*i),
            Command::PushAll => CommandView::PushAll,
            Command::Guided(g) => CommandView::Guided(*g),
            Command::Unknown => CommandView::Unknown,
        }
    }
}

/// The number of log lines asked for: the first argument, 30 when it is not
/// a number, at most 200.
pub open spec fn log_count(args: Seq<Seq<char>>) -> usize {
    let n: nat = match arg(args, 0) {
        Some(a) => match parse_unsigned(a, usize::MAX as nat) {
            Some(v) => v,
            None => 30,
        },
        None => 30,
    };
    if n < 200 {
        n as usize
    } else {
        200
    }
}

/// The polling interval asked for: between 1 and 1440 minutes, else 5.
pub open spec fn interval_arg(args: Seq<Seq<char>>) -> u64 {
    match arg(args, 0) {
        Some(a) => match parse_unsigned(a, u64::MAX as nat) {
            Some(v) => if 1 <= v <= 1440 {
                v as u64
            } else {
                5
            },
            None => 5,
        },
        None => 5,
    }
}

/// The days without releases before a notice: `off`, `0` or nothing turn
/// the check off; a number is taken as it is; anything else is 0.
pub open spec fn slack_arg(args: Seq<Seq<char>>) -> i64 {
    match arg(args, 0) {
        None => 0,
        Some(a) => if a == "off"@ || a == "0"@ {
            0
        } else {
            match parse_i64_spec(a) {
                Some(v) => v as i64,
                None => 0,
            }
        },
    }
}

/// What a command name and its arguments mean.
pub open spec fn spec_command(cmd: Seq<char>, args: Seq<Seq<char>>) -> CommandView {
    if args.len() == 0 && guided_of(cmd) is Some {
        CommandView::Guided(guided_of(cmd)->0)
    } else if cmd == "start"@ || cmd == "help"@ {
        CommandView::Help
    } else if cmd == "admin"@ {
        CommandView::Admin(arg_i64(args, 0))
    } else if cmd == "bind"@ {
        CommandView::Bind(arg_i64(args, 0))
    } else if cmd == "sub"@ {
        match arg(args, 0) {
            Some(u) => if is_feed_url(u) {
                CommandView::Sub(u)
            } else {
                CommandView::SubUsage
            },
            None => CommandView::SubUsage,
        }
    } else if cmd == "list"@ {
        CommandView::List
    } else if cmd == "show"@ {
        CommandView::Show(arg_id(args))
    } else if cmd == "edit"@ {
        CommandView::Edit(arg_id(args))
    } else if cmd == "del"@ {
        CommandView::Del(arg_id(args))
    } else if cmd == "push"@ {
        if arg(args, 0) == Some("all"@) {
            CommandView::PushAll
        } else {
            CommandView::Push(arg_id(args))
        }
    } else if cmd == "test"@ {
        CommandView::Test
    } else if cmd == "status"@ {
        CommandView::Status
    } else if cmd == "logs"@ {
        CommandView::Logs(log_count(args))
    } else if cmd == "cancel"@ {
        CommandView::Cancel
    } else if cmd == "rss"@ {
        CommandView::Rss(arg_switch(args))
    } else if cmd == "interval"@ {
        CommandView::Interval(interval_arg(args))
    } else if cmd == "skiphalf"@ {
        CommandView::SkipHalf(arg_switch(args))
    } else if cmd == "gap"@ {
        CommandView::Gap(arg_switch(args))
    } else if cmd == "slack"@ {
        CommandView::Slack(slack_arg(args))
    } else if cmd == "autodisable"@ {
        CommandView::AutoDisable(arg_switch(args))
    } else if cmd == "total"@ {
        match (arg_i64(args, 0), arg_i64(args, 1)) {
            (Some(i), Some(n)) => CommandView::Total(i, n),
            _ => CommandView::TotalUsage,
        }
    } else if cmd == "bgm"@ {
        match (arg_i64(args, 0), arg_i64(args, 1)) {
            (Some(i), Some(n)) => CommandView::Bgm(i, n),
            _ => CommandView::BgmUsage,
        }
    } else if cmd == "backup"@ {
        match (arg_i64(args, 0), arg(args, 1)) {
            (Some(i), Some(u)) => if is_feed_url(u) {
                CommandView::Backup(i, u)
            } else {
                CommandView::BackupUsage
            },
            _ => CommandView::BackupUsage,
        }
    } else if cmd == "rmbackup"@ {
        CommandView::RmBackup(arg_id(args))
    } else {
        CommandView::Unknown
    }
}

/// The `i`-th argument as an `i64`.
fn arg_i64_of(args: &[String], i: usize) -> (r: Option<i64>)
    ensures
        r == arg_i64(args.deep_view(), i as int),
{
    if i < args.len() {
        let a = args[i].as_str();
        let v = parse_i64_chars(chars_of(a).as_slice());
        match v {
            Some(x) => Some(x),
            None => None,
        }
    } else {
        None
    }
}

fn arg_id_of(args: &[String]) -> (r: i64)
    ensures
        r == arg_id(args.deep_view()),
{
    match arg_i64_of(args, 0) {
        Some(v) => v,
        None => 0,
    }
}

fn arg_switch_of(args: &[String]) -> (r: bool)
    ensures
        r == arg_switch(args.deep_view()),
{
    if args.len() > 0 {
        parse_on_off(args[0].as_str())
    } else {
        true
    }
}

fn feed_url(u: &str) -> (r: bool)
    ensures
        r == is_feed_url(u@),
{
    !u.is_empty() && str_starts_with(u, "http")
}

fn log_count_of(args: &[String]) -> (r: usize)
    ensures
        r == log_count(args.deep_view()),
{
    let n: usize = if args.len() > 0 {
        match parse_unsigned_chars(chars_of(args[0].as_str()).as_slice(), usize::MAX as u64) {
            Some(v) => v as usize,
            None => 30,
        }
    } else {
        30
    };
    if n < 200 {
        n
    } else {
        200
    }
}

fn interval_of(args: &[String]) -> (r: u64)
    ensures
        r == interval_arg(args.deep_view()),
{
    if args.len() > 0 {
        match parse_unsigned_chars(chars_of(args[0].as_str()).as_slice(), u64::MAX) {
            Some(v) => if 1 <= v && v <= 1440 {
                v
            } else {
                5
            },
            None => 5,
        }
    } else {
        5
    }
}

fn slack_of(args: &[String]) -> (r: i64)
    ensures
        r == slack_arg(args.deep_view()),
{
    if args.len() == 0 {
        return 0;
    }
    let a = args[0].as_str();
    if str_eq(a, "off") || str_eq(a, "0") {
        0
    } else {
        match parse_i64_chars(chars_of(a).as_slice()) {
            Some(v) => v,
            None => 0,
        }
    }
}

/// Reads a command's arguments.
pub fn parse_args(cmd: &str, args: &[String]) -> (r: Command)
    ensures
        r@ == spec_command(cmd@, args.deep_view()),
{
    let ghost a = args.deep_view();
    if args.len() == 0 {
        if let Some(g) = guided_word(cmd) {
            return Command::Guided(g);
        }
    }
    if str_eq(cmd, "start") || str_eq(cmd, "help") {
        Command::Help
    } else if str_eq(cmd, "admin") {
        Command::Admin(arg_i64_of(args, 0))
    } else if str_eq(cmd, "bind") {
        Command::Bind(arg_i64_of(args, 0))
    } else if str_eq(cmd, "sub") {
        if args.len() > 0 && feed_url(args[0].as_str()) {
            Command::Sub(args[0].clone())
        } else {
            Command::SubUsage
        }
    } else if str_eq(cmd, "list") {
        Command::List
    } else if str_eq(cmd, "show") {
        Command::Show(arg_id_of(args))
    } else if str_eq(cmd, "edit") {
        Command::Edit(arg_id_of(args))
    } else if str_eq(cmd, "del") {
        Command::Del(arg_id_of(args))
    } else if str_eq(cmd, "push") {
        if args.len() > 0 && str_eq(args[0].as_str(), "all") {
            Command::PushAll
        } else {
            Command::Push(arg_id_of(args))
        }
    } else if str_eq(cmd, "test") {
        Command::Test
    } else if str_eq(cmd, "status") {
        Command::Status
    } else if str_eq(cmd, "logs") {
        Command::Logs(log_count_of(args))
    } else if str_eq(cmd, "cancel") {
        Command::Cancel
    } else if str_eq(cmd, "rss") {
        Command::Rss(arg_switch_of(args))
    } else if str_eq(cmd, "interval") {
        Command::Interval(interval_of(args))
    } else if str_eq(cmd, "skiphalf") {
        Command::SkipHalf(arg_switch_of(args))
    } else if str_eq(cmd, "gap") {
        Command::Gap(arg_switch_of(args))
    } else if str_eq(cmd, "slack") {
        Command::Slack(slack_of(args))
    } else if str_eq(cmd, "autodisable") {
        Command::AutoDisable(arg_switch_of(args))
    } else if str_eq(cmd, "total") {
        match (arg_i64_of(args, 0), arg_i64_of(args, 1)) {
            (Some(i), Some(n)) => Command::Total(i, n),
            _ => Command::TotalUsage,
        }
    } else if str_eq(cmd, "bgm") {
        match (arg_i64_of(args, 0), arg_i64_of(args, 1)) {
            (Some(i), Some(n)) => Command::Bgm(i, n),
            _ => Command::BgmUsage,
        }
    } else if str_eq(cmd, "backup") {
        match arg_i64_of(args, 0) {
            Some(i) => if args.len() > 1 && feed_url(args[1].as_str()) {
                Command::Backup(i, args[1].clone())
            } else {
                Command::BackupUsage
            },
            None => Command::BackupUsage,
        }
    } else if str_eq(cmd, "rmbackup") {
        Command::RmBackup(arg_id_of(args))
    } else {
        Command::Unknown
    }
}

/// What `/admin` does, sent from `chat_id` with the argument `arg`: with no
/// administrator the sender becomes it; the administrator may hand the role
/// to the id given, or is told that it holds it; anyone else is ignored. The
/// result is the administrator to store (if any) and the reply.
pub open spec fn spec_admin_command(admin: Option<i64>, chat_id: i64, arg: Option<i64>) -> Option<(Option<i64>, Reply)> {
    match admin {
        None => Some((Some(chat_id), Reply::BecameAdmin(chat_id))),
        Some(a) => if a == chat_id {
            match arg {
                Some(id) => Some((Some(id), Reply::AdminSet(id))),
                None => Some((None, Reply::AdminIs(chat_id))),
            }
        } else {
            None
        },
    }
}

pub fn admin_command(admin: Option<i64>, chat_id: i64, arg: Option<i64>) -> (r: Option<(Option<i64>, Reply)>)
    ensures
        r == spec_admin_command(admin, chat_id, arg),
{
    match admin {
        None => Some((Some(chat_id), Reply::BecameAdmin(chat_id))),
        Some(a) => if a == chat_id {
            match arg {
                Some(id) => Some((Some(id), Reply::AdminSet(id))),
                None => Some((None, Reply::AdminIs(chat_id))),
            }
        } else {
            None
        },
    }
}

} // verus!
