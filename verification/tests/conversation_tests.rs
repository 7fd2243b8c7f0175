use btboy::conversation::{
    conv_state_of, current_value, delete_confirmed, edit_lang, id_and_value, id_of, new_sub, on_sub_confirm, on_text, read_step,
    route_callback, ConvChange, ConvState, Edit, Route, Step,
};
use btboy::models::SubRow;
use btboy::replies::Reply;

fn state(step: &str) -> ConvState {
    ConvState {
        step: Some(step.to_string()),
        rss_url: Some("http://feed".to_string()),
        title: Some("番".to_string()),
        start_episode: Some(3),
        field: Some("include_kw".to_string()),
        sub_id: Some(9),
        cmd: None,
        arg: None,
    }
}

#[test]
fn steps_are_read_with_defaults() {
    assert!(matches!(read_step(&state("await_channel")), Some(Step::AwaitChannel)));
    match read_step(&state("await_sub_lang")) {
        Some(Step::AwaitSubLang { rss_url, title, start_episode }) => {
            assert_eq!(rss_url, "http://feed");
            assert_eq!(title, "番");
            assert_eq!(start_episode, 3);
        }
        other => panic!("{other:?}"),
    }
    let bare = ConvState { step: Some("await_edit_value".to_string()), rss_url: None, title: None, start_episode: None, field: None, sub_id: None, cmd: None, arg: None };
    match read_step(&bare) {
        Some(Step::AwaitEditValue { field, sub_id }) => {
            assert_eq!(field, "");
            assert_eq!(sub_id, 0);
        }
        other => panic!("{other:?}"),
    }
    let bare_lang = ConvState { step: Some("await_sub_lang".to_string()), rss_url: None, title: None, start_episode: None, field: None, sub_id: None, cmd: None, arg: None };
    assert!(matches!(read_step(&bare_lang), Some(Step::AwaitSubLang { start_episode: 1, .. })));
    assert!(read_step(&state("other")).is_none());
}

#[test]
fn channel_is_bound_by_a_forwarded_message() {
    let o = on_text(&Step::AwaitChannel, Some("hi"), Some(-100123));
    assert_eq!(o.channel, Some(-100123));
    assert!(matches!(o.conv, ConvChange::Clear));
    assert!(matches!(o.reply, Some(Reply::ChannelBoundBold(-100123))));
    let o = on_text(&Step::AwaitChannel, Some("hi"), None);
    assert_eq!(o.channel, None);
    assert!(matches!(o.conv, ConvChange::Keep));
    assert!(matches!(o.reply, Some(Reply::ForwardPrompt)));
}

#[test]
fn first_episode_is_asked_then_language() {
    let step = Step::AwaitSubEpisode { rss_url: "http://feed".to_string(), title: "番".to_string() };
    let o = on_text(&step, Some(" 4 "), None);
    match o.conv {
        ConvChange::Store(Step::AwaitSubLang { rss_url, title, start_episode }) => {
            assert_eq!(rss_url, "http://feed");
            assert_eq!(title, "番");
            assert_eq!(start_episode, 4);
        }
        other => panic!("{other:?}"),
    }
    assert!(matches!(o.reply, Some(Reply::StartFrom(4))));
    assert_eq!(o.keyboard.unwrap()[0][0], ("简中".to_string(), "sublang:简中".to_string()));
    let o = on_text(&step, Some("abc"), None);
    assert!(matches!(o.reply, Some(Reply::StartFrom(1))));
    let o = on_text(&step, Some("   "), None);
    assert!(o.reply.is_none() && matches!(o.conv, ConvChange::Keep));
    let o = on_text(&step, None, None);
    assert!(o.reply.is_none());
}

#[test]
fn a_field_is_edited() {
    let step = Step::AwaitEditValue { field: "start_episode".to_string(), sub_id: 9 };
    let o = on_text(&step, Some("12"), None);
    assert!(matches!(o.edit, Some(Edit::SetStart(12))));
    assert!(matches!(o.conv, ConvChange::Clear));
    match o.reply {
        Some(Reply::Updated(9, f)) => assert_eq!(f, "start_episode"),
        other => panic!("{other:?}"),
    }
    let step = Step::AwaitEditValue { field: "exclude_kw".to_string(), sub_id: 9 };
    match on_text(&step, Some(" 生肉 "), None).edit {
        Some(Edit::SetExclude(v)) => assert_eq!(v, "生肉"),
        other => panic!("{other:?}"),
    }
    let step = Step::AwaitEditValue { field: "bogus".to_string(), sub_id: 9 };
    let o = on_text(&step, Some("x"), None);
    assert!(o.edit.is_none());
    assert!(matches!(o.conv, ConvChange::Clear));
    assert!(matches!(o.reply, Some(Reply::Updated(9, _))));
}

#[test]
fn waiting_for_a_button_prompts() {
    let step = Step::AwaitSubConfirm { rss_url: String::new(), title: String::new() };
    assert!(matches!(on_text(&step, Some("x"), None).reply, Some(Reply::ConfirmPrompt)));
    let step = Step::AwaitSubLang { rss_url: String::new(), title: String::new(), start_episode: 1 };
    assert!(on_text(&step, Some("x"), None).reply.is_none());
}

#[test]
fn callbacks_are_routed() {
    let (r, rest) = route_callback("pick:12:0");
    assert_eq!(r, Route::Answer);
    assert_eq!(rest, "12:0");
    assert_eq!(route_callback("subc:yes"), (Route::SubConfirm, "yes".to_string()));
    assert_eq!(route_callback("sublang:简中"), (Route::SubLang, "简中".to_string()));
    assert_eq!(route_callback("edit:3:include_kw"), (Route::EditStart, "3:include_kw".to_string()));
    assert_eq!(route_callback("editlangsel:3").0, Route::EditLangSelect);
    assert_eq!(route_callback("editlang:3:ask").0, Route::EditLang);
    assert_eq!(route_callback("toggle:3").0, Route::Toggle);
    assert_eq!(route_callback("del:3").0, Route::Delete);
    assert_eq!(route_callback("delc:3:yes").0, Route::DeleteConfirm);
    assert_eq!(route_callback("noadd"), (Route::Answer, String::new()));
    assert_eq!(route_callback("zzz:1").0, Route::Ignore);
}

#[test]
fn ids_and_values_in_button_data() {
    assert_eq!(id_and_value("3:include_kw"), (3, Some("include_kw".to_string())));
    assert_eq!(id_and_value("x"), (0, None));
    assert_eq!(id_of("17"), 17);
    assert_eq!(id_of("bad"), 0);
    assert_eq!(edit_lang("3:繁中"), (3, "繁中".to_string()));
    assert_eq!(edit_lang("3"), (3, "ask".to_string()));
    assert_eq!(delete_confirmed("3:yes"), (3, true));
    assert_eq!(delete_confirmed("3:no"), (3, false));
    assert_eq!(delete_confirmed("3"), (3, false));
}

#[test]
fn adding_a_subscription() {
    let (c, r) = on_sub_confirm(&state("await_sub_confirm"), "yes");
    assert!(matches!(r, Reply::AskStart));
    match c {
        ConvChange::Store(Step::AwaitSubEpisode { rss_url, title }) => {
            assert_eq!(rss_url, "http://feed");
            assert_eq!(title, "番");
        }
        other => panic!("{other:?}"),
    }
    let (c, r) = on_sub_confirm(&state("await_sub_confirm"), "no");
    assert!(matches!(c, ConvChange::Clear));
    assert!(matches!(r, Reply::AddCancelled));
    let n = new_sub(&state("await_sub_lang"), "简繁");
    assert_eq!((n.rss_url.as_str(), n.title.as_str(), n.start_episode, n.lang.as_str()), ("http://feed", "番", 3, "简繁"));
}

#[test]
fn current_values_of_fields() {
    let s = SubRow {
        id: 9,
        rss_url: String::new(),
        title: String::new(),
        start_episode: 4,
        lang_pref: String::new(),
        include_kw: "1080P".to_string(),
        exclude_kw: "生肉".to_string(),
        enabled: true,
        last_fetch_at: None,
        created_at: String::new(),
        backup_rss_url: String::new(),
        total_episodes: None,
        bgm_id: None,
        last_push_at: None,
        last_slack_notified: None,
        gap_notified: None,
        poster_url: None,
    };
    assert_eq!(current_value("start_episode", Some(&s)), "4");
    assert_eq!(current_value("include_kw", Some(&s)), "1080P");
    assert_eq!(current_value("exclude_kw", Some(&s)), "生肉");
    assert_eq!(current_value("other", Some(&s)), "");
    assert_eq!(current_value("start_episode", None), "");
}

#[test]
fn stored_steps_read_back() {
    let steps = vec![
        Step::AwaitChannel,
        Step::AwaitSubConfirm { rss_url: "u".to_string(), title: "t".to_string() },
        Step::AwaitSubEpisode { rss_url: "u".to_string(), title: "t".to_string() },
        Step::AwaitSubLang { rss_url: "u".to_string(), title: "t".to_string(), start_episode: 4 },
        Step::AwaitEditValue { field: "include_kw".to_string(), sub_id: 9 },
        Step::AwaitArg { cmd: "interval".to_string(), first: None },
        Step::AwaitArg { cmd: "total".to_string(), first: Some("3".to_string()) },
    ];
    for s in steps {
        let c = conv_state_of(&s);
        let back = read_step(&c).unwrap();
        assert_eq!(format!("{back:?}"), format!("{s:?}"));
    }
    let c = conv_state_of(&Step::AwaitSubLang { rss_url: "u".to_string(), title: "t".to_string(), start_episode: 4 });
    assert_eq!(c.step.as_deref(), Some("await_sub_lang"));
    assert_eq!(c.start_episode, Some(4));
    assert_eq!(c.field, None);
}

#[test]
fn an_awaited_argument_runs_the_command() {
    let step = Step::AwaitArg { cmd: "interval".to_string(), first: None };
    let o = on_text(&step, Some(" 15 "), None);
    assert_eq!(o.run, Some(("interval".to_string(), vec!["15".to_string()])));
    assert!(matches!(o.conv, ConvChange::Clear));
    assert!(o.reply.is_none());
    assert!(o.edit.is_none());
    let step = Step::AwaitArg { cmd: "backup".to_string(), first: Some("2".to_string()) };
    let o = on_text(&step, Some("http://b"), None);
    assert_eq!(o.run, Some(("backup".to_string(), vec!["2".to_string(), "http://b".to_string()])));
    let o = on_text(&step, Some("   "), None);
    assert!(o.run.is_none());
    assert!(matches!(o.conv, ConvChange::Keep));
    assert!(o.reply.is_none());
}

#[test]
fn awaited_argument_is_stored_and_read_back() {
    let c = conv_state_of(&Step::AwaitArg { cmd: "total".to_string(), first: Some("3".to_string()) });
    assert_eq!(c.step.as_deref(), Some("await_arg"));
    assert_eq!(c.cmd.as_deref(), Some("total"));
    assert_eq!(c.arg.as_deref(), Some("3"));
    assert_eq!(c.rss_url, None);
    let bare = ConvState { step: Some("await_arg".to_string()), rss_url: None, title: None, start_episode: None, field: None, sub_id: None, cmd: None, arg: None };
    match read_step(&bare) {
        Some(Step::AwaitArg { cmd, first }) => {
            assert_eq!(cmd, "");
            assert_eq!(first, None);
        }
        other => panic!("{other:?}"),
    }
}

#[test]
fn menu_buttons_are_routed() {
    assert_eq!(route_callback("menu:show:3"), (Route::Menu, "show:3".to_string()));
    assert_eq!(route_callback("menu:push:all"), (Route::Menu, "push:all".to_string()));
}
