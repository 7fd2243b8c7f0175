use btboy::commands::{bool_str, command_allowed, guided_name_of, guided_word, parse_args, parse_command, parse_on_off, switch_value, Command, GuidedCmd};

fn args(v: &[&str]) -> Vec<String> {
    v.iter().map(|s| s.to_string()).collect()
}

#[test]
fn commands_are_taken_apart() {
    assert_eq!(parse_command("  /Sub@BTBoyBot  http://x  y "), Some(("sub".to_string(), args(&["http://x", "y"]))));
    assert_eq!(parse_command("/LIST"), Some(("list".to_string(), vec![])));
    assert_eq!(parse_command("hello"), None);
    assert_eq!(parse_command("/"), None);
    assert_eq!(parse_command("   "), None);
    assert_eq!(parse_command("/logs\t50"), Some(("logs".to_string(), args(&["50"]))));
}

#[test]
fn only_some_commands_are_open_to_all() {
    assert!(command_allowed("list", Some(7), 7));
    assert!(!command_allowed("list", Some(7), 8));
    assert!(!command_allowed("list", None, 8));
    assert!(command_allowed("start", None, 8));
    assert!(command_allowed("help", Some(7), 8));
    assert!(command_allowed("admin", Some(7), 8));
}

#[test]
fn switches() {
    assert!(parse_on_off("on"));
    assert!(parse_on_off("开"));
    assert!(parse_on_off("1"));
    assert!(!parse_on_off("off"));
    assert!(!parse_on_off("关"));
    assert!(!parse_on_off("0"));
    assert!(parse_on_off("whatever"));
    assert!(parse_on_off(""));
    assert_eq!(bool_str(true), "开");
    assert_eq!(bool_str(false), "关");
    assert_eq!(switch_value(true), "1");
    assert_eq!(switch_value(false), "0");
}

#[test]
fn command_arguments() {
    assert!(matches!(parse_args("start", &[]), Command::Help));
    assert!(matches!(parse_args("help", &[]), Command::Help));
    assert!(matches!(parse_args("admin", &args(&["12"])), Command::Admin(Some(12))));
    assert!(matches!(parse_args("admin", &args(&["x"])), Command::Admin(None)));
    assert!(matches!(parse_args("bind", &args(&["-1001"])), Command::Bind(Some(-1001))));
    assert!(matches!(parse_args("bind", &[]), Command::Bind(None)));
    match parse_args("sub", &args(&["https://mikanani.me/RSS/1"])) {
        Command::Sub(u) => assert_eq!(u, "https://mikanani.me/RSS/1"),
        other => panic!("{other:?}"),
    }
    assert!(matches!(parse_args("sub", &args(&["ftp://x"])), Command::SubUsage));
    assert!(matches!(parse_args("sub", &[]), Command::Guided(GuidedCmd::Sub)));
    assert!(matches!(parse_args("list", &[]), Command::List));
    assert!(matches!(parse_args("show", &args(&["3"])), Command::Show(3)));
    assert!(matches!(parse_args("show", &args(&["x"])), Command::Show(0)));
    assert!(matches!(parse_args("edit", &args(&["4"])), Command::Edit(4)));
    assert!(matches!(parse_args("del", &args(&["2"])), Command::Del(2)));
    assert!(matches!(parse_args("push", &args(&["9"])), Command::Push(9)));
    assert!(matches!(parse_args("test", &[]), Command::Test));
    assert!(matches!(parse_args("status", &[]), Command::Status));
    assert!(matches!(parse_args("logs", &[]), Command::Logs(30)));
    assert!(matches!(parse_args("logs", &args(&["500"])), Command::Logs(200)));
    assert!(matches!(parse_args("logs", &args(&["12"])), Command::Logs(12)));
    assert!(matches!(parse_args("logs", &args(&["-1"])), Command::Logs(30)));
    assert!(matches!(parse_args("cancel", &[]), Command::Cancel));
    assert!(matches!(parse_args("rss", &args(&["off"])), Command::Rss(false)));
    assert!(matches!(parse_args("rss", &args(&["x"])), Command::Rss(true)));
    assert!(matches!(parse_args("interval", &args(&["10"])), Command::Interval(10)));
    assert!(matches!(parse_args("interval", &args(&["0"])), Command::Interval(5)));
    assert!(matches!(parse_args("interval", &args(&["1441"])), Command::Interval(5)));
    assert!(matches!(parse_args("interval", &args(&["1440"])), Command::Interval(1440)));
    assert!(matches!(parse_args("skiphalf", &args(&["关"])), Command::SkipHalf(false)));
    assert!(matches!(parse_args("gap", &args(&["on"])), Command::Gap(true)));
    assert!(matches!(parse_args("slack", &args(&["off"])), Command::Slack(0)));
    assert!(matches!(parse_args("slack", &args(&["3"])), Command::Slack(3)));
    assert!(matches!(parse_args("slack", &args(&["x"])), Command::Slack(0)));
        assert!(matches!(parse_args("autodisable", &args(&["0"])), Command::AutoDisable(false)));
    assert!(matches!(parse_args("total", &args(&["1", "12"])), Command::Total(1, 12)));
    assert!(matches!(parse_args("total", &args(&["1"])), Command::TotalUsage));
    assert!(matches!(parse_args("bgm", &args(&["1", "400602"])), Command::Bgm(1, 400602)));
    assert!(matches!(parse_args("bgm", &args(&["x", "1"])), Command::BgmUsage));
    match parse_args("backup", &args(&["2", "http://b"])) {
        Command::Backup(2, u) => assert_eq!(u, "http://b"),
        other => panic!("{other:?}"),
    }
    assert!(matches!(parse_args("backup", &args(&["2"])), Command::BackupUsage));
    assert!(matches!(parse_args("backup", &args(&["x", "http://b"])), Command::BackupUsage));
    assert!(matches!(parse_args("rmbackup", &args(&["2"])), Command::RmBackup(2)));
    assert!(matches!(parse_args("nope", &[]), Command::Unknown));
}

#[test]
fn bare_commands_start_a_guide() {
    assert!(matches!(parse_args("show", &[]), Command::Guided(GuidedCmd::Show)));
    assert!(matches!(parse_args("edit", &[]), Command::Guided(GuidedCmd::Edit)));
    assert!(matches!(parse_args("del", &[]), Command::Guided(GuidedCmd::Del)));
    assert!(matches!(parse_args("push", &[]), Command::Guided(GuidedCmd::Push)));
    assert!(matches!(parse_args("rss", &[]), Command::Guided(GuidedCmd::Rss)));
    assert!(matches!(parse_args("interval", &[]), Command::Guided(GuidedCmd::Interval)));
    assert!(matches!(parse_args("skiphalf", &[]), Command::Guided(GuidedCmd::SkipHalf)));
    assert!(matches!(parse_args("gap", &[]), Command::Guided(GuidedCmd::Gap)));
    assert!(matches!(parse_args("slack", &[]), Command::Guided(GuidedCmd::Slack)));
    assert!(matches!(parse_args("autodisable", &[]), Command::Guided(GuidedCmd::AutoDisable)));
    assert!(matches!(parse_args("total", &[]), Command::Guided(GuidedCmd::Total)));
    assert!(matches!(parse_args("bgm", &[]), Command::Guided(GuidedCmd::Bgm)));
    assert!(matches!(parse_args("backup", &[]), Command::Guided(GuidedCmd::Backup)));
    assert!(matches!(parse_args("rmbackup", &[]), Command::Guided(GuidedCmd::RmBackup)));
    assert!(matches!(parse_args("list", &[]), Command::List));
    assert!(matches!(parse_args("logs", &[]), Command::Logs(30)));
}

#[test]
fn push_all_is_its_own_command() {
    assert!(matches!(parse_args("push", &args(&["all"])), Command::PushAll));
    assert!(matches!(parse_args("push", &args(&["ALL"])), Command::Push(0)));
    assert!(matches!(parse_args("push", &args(&["5"])), Command::Push(5)));
}

#[test]
fn guided_command_names() {
    assert_eq!(guided_word("show"), Some(GuidedCmd::Show));
    assert_eq!(guided_word("rmbackup"), Some(GuidedCmd::RmBackup));
    assert_eq!(guided_word("list"), None);
    assert_eq!(guided_name_of(GuidedCmd::AutoDisable), "autodisable");
    assert_eq!(guided_name_of(GuidedCmd::Sub), "sub");
}
