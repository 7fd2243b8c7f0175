//! The bot's conversations with the administrator: adding a subscription
//! step by step, editing a subscription's field, binding a channel by a
//! forwarded message, and the buttons pressed along the way.
use vstd::prelude::*;
use crate::num::{parse_i64_spec, parse_i64_chars};
use crate::replies::Reply;
use crate::panels::{lang_keyboard, lang_row, Button};
use crate::text::{after_char, before_char, chars_of, split_once_char, str_eq, string_of, trim, trim_chars};

verus! {

/// A stored conversation as read: its step and the values it holds, each
/// absent when it is missing or of another kind.
#[derive(Debug, Clone)]
pub struct ConvState {
    pub step: Option<String>,
    pub rss_url: Option<String>,
    pub title: Option<String>,
    pub start_episode: Option<i64>,
    pub field: Option<String>,
    pub sub_id: Option<i64>,
    /// The command whose argument is awaited.
    pub cmd: Option<String>,
    /// The argument chosen before it.
    pub arg: Option<String>,
}

/// A step of a conversation, with what it has collected.
#[derive(Debug)]
pub enum Step {
    /// Waiting for a message forwarded from the channel to bind.
    AwaitChannel,
    /// Waiting for the guessed title to be confirmed.
    AwaitSubConfirm { rss_url: String, title: String },
    /// Waiting for the first episode to push.
    AwaitSubEpisode { rss_url: String, title: String },
    /// Waiting for the language preference.
    AwaitSubLang { rss_url: String, title: String, start_episode: i64 },
    /// Waiting for the new value of a subscription's field.
    AwaitEditValue { field: String, sub_id: i64 },
    /// Waiting for the argument of a command sent without one; `first` is
    /// the argument chosen before (a subscription).
    AwaitArg { cmd: String, first: Option<String> },
}

/// A text value read from a conversation, empty when absent.
pub open spec fn text_or_empty(s: Option<String>) -> Seq<char> {
    match s {
        Some(t) => t@,
        None => Seq::empty(),
    }
}

/// The step a stored conversation is at: none for an unknown step.
pub open spec fn spec_read_step(c: ConvState, r: Option<Step>) -> bool {
    let step = text_or_empty(c.step);
    if step == "await_channel"@ {
        r matches Some(Step::AwaitChannel)
    } else if step == "await_sub_confirm"@ {
        r matches Some(Step::AwaitSubConfirm { rss_url, title }) && rss_url@ == text_or_empty(c.rss_url) && title@
            == text_or_empty(c.title)
    } else if step == "await_sub_episode"@ {
        r matches Some(Step::AwaitSubEpisode { rss_url, title }) && rss_url@ == text_or_empty(c.rss_url) && title@
            == text_or_empty(c.title)
    } else if step == "await_sub_lang"@ {
        r matches Some(Step::AwaitSubLang { rss_url, title, start_episode }) && rss_url@ == text_or_empty(c.rss_url)
            && title@ == text_or_empty(c.title) && start_episode == (match c.start_episode {
            Some(n) => n,
            None => 1,
        })
    } else if step == "await_edit_value"@ {
        r matches Some(Step::AwaitEditValue { field, sub_id }) && field@ == text_or_empty(c.field) && sub_id == (
        match c.sub_id {
            Some(n) => n,
            None => 0,
        })
    } else if step == "await_arg"@ {
        r matches Some(Step::AwaitArg { cmd, first }) && cmd@ == text_or_empty(c.cmd) && first.deep_view()
            == c.arg.deep_view()
    } else {
        r is None
    }
}

fn text_of(s: &Option<String>) -> (r: String)
    ensures
        r@ == text_or_empty(*s),
{
    match s {
        Some(t) => t.clone(),
        None => String::new(),
    }
}

/// Reads the step of a stored conversation.
pub fn read_step(c: &ConvState) -> (r: Option<Step>)
    ensures
        spec_read_step(*c, r),
{
    let step = text_of(&c.step);
    let s = step.as_str();
    if str_eq(s, "await_channel") {
        Some(Step::AwaitChannel)
    } else if str_eq(s, "await_sub_confirm") {
        Some(Step::AwaitSubConfirm { rss_url: text_of(&c.rss_url), title: text_of(&c.title) })
    } else if str_eq(s, "await_sub_episode") {
        Some(Step::AwaitSubEpisode { rss_url: text_of(&c.rss_url), title: text_of(&c.title) })
    } else if str_eq(s, "await_sub_lang") {
        let start = match c.start_episode {
            Some(n) => n,
            None => 1,
        };
        Some(Step::AwaitSubLang { rss_url: text_of(&c.rss_url), title: text_of(&c.title), start_episode: start })
    } else if str_eq(s, "await_edit_value") {
        let id = match c.sub_id {
            Some(n) => n,
            None => 0,
        };
        Some(Step::AwaitEditValue { field: text_of(&c.field), sub_id: id })
    } else if str_eq(s, "await_arg") {
        let first = match &c.arg {
            Some(a) => Some(a.clone()),
            None => None,
        };
        Some(Step::AwaitArg { cmd: text_of(&c.cmd), first })
    } else {
        None
    }
}

/// How a step is stored: its name and the values it has collected.
pub open spec fn spec_conv_state_of(step: Step, c: ConvState) -> bool {
    match step {
        Step::AwaitChannel => {
            &&& c.step.deep_view() == Some("await_channel"@)
            &&& c.rss_url is None && c.title is None && c.start_episode is None && c.field is None && c.sub_id is None
            &&& c.cmd is None && c.arg is None
            &&& c.cmd is None && c.arg is None
        },
        Step::AwaitSubConfirm { rss_url, title } => {
            &&& c.step.deep_view() == Some("await_sub_confirm"@)
            &&& c.rss_url.deep_view() == Some(rss_url@) && c.title.deep_view() == Some(title@)
            &&& c.start_episode is None && c.field is None && c.sub_id is None
            &&& c.cmd is None && c.arg is None
        },
        Step::AwaitSubEpisode { rss_url, title } => {
            &&& c.step.deep_view() == Some("await_sub_episode"@)
            &&& c.rss_url.deep_view() == Some(rss_url@) && c.title.deep_view() == Some(title@)
            &&& c.start_episode is None && c.field is None && c.sub_id is None
            &&& c.cmd is None && c.arg is None
        },
        Step::AwaitSubLang { rss_url, title, start_episode } => {
            &&& c.step.deep_view() == Some("await_sub_lang"@)
            &&& c.rss_url.deep_view() == Some(rss_url@) && c.title.deep_view() == Some(title@)
            &&& c.start_episode == Some(start_episode) && c.field is None && c.sub_id is None
            &&& c.cmd is None && c.arg is None
        },
        Step::AwaitEditValue { field, sub_id } => {
            &&& c.step.deep_view() == Some("await_edit_value"@)
            &&& c.rss_url is None && c.title is None && c.start_episode is None
            &&& c.field.deep_view() == Some(field@) && c.sub_id == Some(sub_id)
            &&& c.cmd is None && c.arg is None
        },
        Step::AwaitArg { cmd, first } => {
            &&& c.step.deep_view() == Some("await_arg"@)
            &&& c.rss_url is None && c.title is None && c.start_episode is None && c.field is None && c.sub_id is None
            &&& c.cmd.deep_view() == Some(cmd@) && c.arg.deep_view() == first.deep_view()
        },
    }
}

fn some_text(t: &str) -> (r: Option<String>)
    ensures
        r.deep_view() == Some(t@),
{
    let mut s = String::new();
    crate::text::push_str(&mut s, t);
    Some(s)
}

/// What is stored for a step.
pub fn conv_state_of(step: &Step) -> (r: ConvState)
    ensures
        spec_conv_state_of(*step, r),
{
    match step {
        Step::AwaitChannel => ConvState {
            step: some_text("await_channel"),
            rss_url: None,
            title: None,
            start_episode: None,
            field: None,
            sub_id: None,
            cmd: None,
            arg: None,
        },
        Step::AwaitSubConfirm { rss_url, title } => ConvState {
            step: some_text("await_sub_confirm"),
            rss_url: Some(rss_url.clone()),
            title: Some(title.clone()),
            start_episode: None,
            field: None,
            sub_id: None,
            cmd: None,
            arg: None,
        },
        Step::AwaitSubEpisode { rss_url, title } => ConvState {
            step: some_text("await_sub_episode"),
            rss_url: Some(rss_url.clone()),
            title: Some(title.clone()),
            start_episode: None,
            field: None,
            sub_id: None,
            cmd: None,
            arg: None,
        },
        Step::AwaitSubLang { rss_url, title, start_episode } => ConvState {
            step: some_text("await_sub_lang"),
            rss_url: Some(rss_url.clone()),
            title: Some(title.clone()),
            start_episode: Some(*start_episode),
            field: None,
            sub_id: None,
            cmd: None,
            arg: None,
        },
        Step::AwaitEditValue { field, sub_id } => ConvState {
            step: some_text("await_edit_value"),
            rss_url: None,
            title: None,
            start_episode: None,
            field: Some(field.clone()),
            sub_id: Some(*sub_id),
            cmd: None,
            arg: None,
        },
        Step::AwaitArg { cmd, first } => ConvState {
            step: some_text("await_arg"),
            rss_url: None,
            title: None,
            start_episode: None,
            field: None,
            sub_id: None,
            cmd: Some(cmd.clone()),
            arg: match first {
                Some(f) => Some(f.clone()),
                None => None,
            },
        },
    }
}

/// Two steps with the same values.
pub open spec fn same_step(a: Step, b: Step) -> bool {
    match (a, b) {
        (Step::AwaitChannel, Step::AwaitChannel) => true,
        (Step::AwaitSubConfirm { rss_url: u1, title: t1 }, Step::AwaitSubConfirm { rss_url: u2, title: t2 }) => u1@
            == u2@ && t1@ == t2@,
        (Step::AwaitSubEpisode { rss_url: u1, title: t1 }, Step::AwaitSubEpisode { rss_url: u2, title: t2 }) => u1@
            == u2@ && t1@ == t2@,
        (
            Step::AwaitSubLang { rss_url: u1, title: t1, start_episode: s1 },
            Step::AwaitSubLang { rss_url: u2, title: t2, start_episode: s2 },
        ) => u1@ == u2@ && t1@ == t2@ && s1 == s2,
        (Step::AwaitEditValue { field: f1, sub_id: i1 }, Step::AwaitEditValue { field: f2, sub_id: i2 }) => f1@
            == f2@ && i1 == i2,
        (Step::AwaitArg { cmd: c1, first: f1 }, Step::AwaitArg { cmd: c2, first: f2 }) => c1@ == c2@
            && f1.deep_view() == f2.deep_view(),
        _ => false,
    }
}

/// Reading back what is stored for a step gives that step.
pub proof fn law_step_read_back(step: Step, c: ConvState, r: Option<Step>)
    requires
        spec_conv_state_of(step, c),
        spec_read_step(c, r),
    ensures
        r matches Some(s) && same_step(s, step),
{
    reveal_strlit("await_channel");
    reveal_strlit("await_sub_confirm");
    reveal_strlit("await_sub_episode");
    reveal_strlit("await_sub_lang");
    reveal_strlit("await_edit_value");
    reveal_strlit("await_arg");
    assert("await_arg"@.len() == 9 && "await_channel"@.len() == 13 && "await_sub_confirm"@.len() == 17);
    assert("await_sub_episode"@.len() == 17 && "await_sub_lang"@.len() == 14 && "await_edit_value"@.len() == 16);
    assert("await_sub_confirm"@.len() != "await_channel"@.len());
    assert("await_sub_episode"@.len() != "await_channel"@.len());
    assert("await_sub_episode"@[10] != "await_sub_confirm"@[10]);
    assert("await_sub_lang"@.len() != "await_channel"@.len());
    assert("await_sub_lang"@.len() != "await_sub_confirm"@.len());
    assert("await_sub_lang"@.len() != "await_sub_episode"@.len());
    assert("await_edit_value"@.len() != "await_channel"@.len());
    assert("await_edit_value"@[6] != "await_sub_confirm"@[6]);
    assert("await_edit_value"@[6] != "await_sub_episode"@[6]);
    assert("await_edit_value"@.len() != "await_sub_lang"@.len());
}

/// What happens to the stored conversation.
#[derive(Debug)]
pub enum ConvChange {
    Keep,
    Clear,
    Store(Step),
}

/// A change to a subscription's field.
#[derive(Debug)]
pub enum Edit {
    /// The first episode to push.
    SetStart(i64),
    /// The keywords a title must hold.
    SetInclude(String),
    /// The keywords a title must not hold.
    SetExclude(String),
}

/// What a text message does within a conversation.
#[derive(Debug)]
pub struct TextOutcome {
    /// A channel to bind.
    pub channel: Option<i64>,
    pub conv: ConvChange,
    pub edit: Option<Edit>,
    pub reply: Option<Reply>,
    pub keyboard: Option<Vec<Vec<(String, String)>>>,
    /// A command to run with these arguments.
    pub run: Option<(String, Vec<String>)>,
}

/// A number typed by the administrator, or `default` when it is not one.
pub open spec fn number_or(t: Seq<char>, default: i64) -> i64 {
    match parse_i64_spec(t) {
        Some(v) => v as i64,
        None => default,
    }
}

fn number_or_of(t: &[char], default: i64) -> (r: i64)
    ensures
        r == number_or(t@, default),
{
    match parse_i64_chars(t) {
        Some(v) => v,
        None => default,
    }
}

/// An outcome that does nothing.
pub open spec fn nothing(o: TextOutcome) -> bool {
    o.channel is None && o.conv is Keep && o.edit is None && o.reply is None && o.keyboard is None && o.run is None
}

/// An outcome that only replies, leaving the conversation as it is.
pub open spec fn only_reply(o: TextOutcome, r: Reply) -> bool {
    o.channel is None && o.conv is Keep && o.edit is None && o.reply == Some(r) && o.keyboard is None && o.run is None
}

/// What a text message (`text`, absent for a message without text, from a
/// message forwarded from the channel `forwarded` where it was one) does at
/// a step of a conversation.
pub open spec fn spec_on_text(step: Step, text: Option<Seq<char>>, forwarded: Option<i64>, o: TextOutcome) -> bool {
    let t = trim(
        match text {
            Some(s) => s,
            None => Seq::empty(),
        },
    );
    match step {
        Step::AwaitChannel => match forwarded {
            Some(ch) => o.channel == Some(ch) && o.conv is Clear && o.edit is None && o.reply == Some(
                Reply::ChannelBoundBold(ch),
            ) && o.keyboard is None && o.run is None,
            None => only_reply(o, Reply::ForwardPrompt),
        },
        Step::AwaitSubConfirm { .. } => only_reply(o, Reply::ConfirmPrompt),
        Step::AwaitSubEpisode { rss_url, title } => if t.len() == 0 {
            nothing(o)
        } else {
            let start = number_or(t, 1);
            &&& o.channel is None
            &&& o.edit is None
            &&& o.conv matches ConvChange::Store(Step::AwaitSubLang { rss_url: u, title: ti, start_episode: s })
            &&& u@ == rss_url@ && ti@ == title@ && s == start
            &&& o.reply == Some(Reply::StartFrom(start))
            &&& o.keyboard matches Some(k) && k.deep_view() == seq![lang_row("sublang:"@)]
            &&& o.run is None
        },
        Step::AwaitSubLang { .. } => nothing(o),
        Step::AwaitEditValue { field, sub_id } => if t.len() == 0 {
            nothing(o)
        } else {
            &&& o.channel is None
            &&& o.conv is Clear
            &&& o.keyboard is None
            &&& o.run is None
            &&& o.reply matches Some(Reply::Updated(id, f)) && id == sub_id && f@ == field@
            &&& if field@ == "start_episode"@ {
                o.edit == Some(Edit::SetStart(number_or(t, 1)))
            } else if field@ == "include_kw"@ {
                o.edit matches Some(Edit::SetInclude(v)) && v@ == t
            } else if field@ == "exclude_kw"@ {
                o.edit matches Some(Edit::SetExclude(v)) && v@ == t
            } else {
                o.edit is None
            }
        },
        Step::AwaitArg { cmd, first } => if t.len() == 0 {
            nothing(o)
        } else {
            &&& o.channel is None
            &&& o.conv is Clear
            &&& o.edit is None
            &&& o.reply is None
            &&& o.keyboard is None
            &&& o.run matches Some((c, a)) && c@ == cmd@ && a.deep_view() == (match first {
                Some(f) => seq![f@, t],
                None => seq![t],
            })
        },
    }
}


fn silent() -> (o: TextOutcome)
    ensures
        nothing(o),
{
    TextOutcome { channel: None, conv: ConvChange::Keep, edit: None, reply: None, keyboard: None, run: None }
}

/// Running a command with the argument typed after the one chosen before.
fn arg_outcome(cmd: &String, first: &Option<String>, t: &Vec<char>) -> (o: TextOutcome)
    ensures
        o.channel is None,
        o.conv is Clear,
        o.edit is None,
        o.reply is None,
        o.keyboard is None,
        o.run matches Some((c, a)) && c@ == cmd@ && a.deep_view() == (match first {
            Some(f) => seq![f@, t@],
            None => seq![t@],
        }),
{
    let mut args: Vec<String> = Vec::new();
    match first {
        Some(f) => {
            args.push(f.clone());
            assert(args.deep_view() =~= seq![f@]);
        },
        None => {
            assert(args.deep_view() =~= Seq::<Seq<char>>::empty());
        },
    }
    let ghost before = args.deep_view();
    args.push(string_of(t.as_slice()));
    assert(args.deep_view() =~= before.push(t@));
    TextOutcome {
        channel: None,
        conv: ConvChange::Clear,
        edit: None,
        reply: None,
        keyboard: None,
        run: Some((cmd.clone(), args)),
    }
}

/// What a text message does at a step of a conversation.
pub fn on_text(step: &Step, text: Option<&str>, forwarded: Option<i64>) -> (o: TextOutcome)
    ensures
        spec_on_text(
            *step,
            match text {
                Some(s) => Some(s@),
                None => None,
            },
            forwarded,
            o,
        ),
{
    let raw = match text {
        Some(s) => chars_of(s),
        None => Vec::new(),
    };
    let t = trim_chars(raw.as_slice());
    match step {
        Step::AwaitChannel => match forwarded {
            Some(ch) => TextOutcome {
                channel: Some(ch),
                conv: ConvChange::Clear,
                edit: None,
                reply: Some(Reply::ChannelBoundBold(ch)),
                keyboard: None,
                run: None,
            },
            None => TextOutcome {
                channel: None,
                conv: ConvChange::Keep,
                edit: None,
                reply: Some(Reply::ForwardPrompt),
                keyboard: None,
                run: None,
            },
        },
        Step::AwaitSubConfirm { .. } => TextOutcome {
            channel: None,
            conv: ConvChange::Keep,
            edit: None,
            reply: Some(Reply::ConfirmPrompt),
            keyboard: None,
            run: None,
        },
        Step::AwaitSubEpisode { rss_url, title } => {
            if t.len() == 0 {
                return silent();
            }
            let start = number_or_of(t.as_slice(), 1);
            TextOutcome {
                channel: None,
                conv: ConvChange::Store(
                    Step::AwaitSubLang { rss_url: rss_url.clone(), title: title.clone(), start_episode: start },
                ),
                edit: None,
                reply: Some(Reply::StartFrom(start)),
                keyboard: Some(lang_keyboard("sublang:")),
                run: None,
            }
        },
        Step::AwaitSubLang { .. } => silent(),
        Step::AwaitEditValue { field, sub_id } => {
            if t.len() == 0 {
                return silent();
            }
            let f = field.as_str();
            let edit = if str_eq(f, "start_episode") {
                Some(Edit::SetStart(number_or_of(t.as_slice(), 1)))
            } else if str_eq(f, "include_kw") {
                Some(Edit::SetInclude(string_of(t.as_slice())))
            } else if str_eq(f, "exclude_kw") {
                Some(Edit::SetExclude(string_of(t.as_slice())))
            } else {
                None
            };
            TextOutcome {
                channel: None,
                conv: ConvChange::Clear,
                edit,
                reply: Some(Reply::Updated(*sub_id, field.clone())),
                keyboard: None,
                run: None,
            }
        },
        Step::AwaitArg { cmd, first } => {
            if t.len() == 0 {
                return silent();
            }
            arg_outcome(cmd, first, &t)
        },
    }
}


/// What the buttons of the bot lead to, by the part of their data before
/// the first colon.
#[derive(Debug, Clone, Copy, PartialEq, Eq, Structural)]
pub enum Route {
    /// An answer to a question about candidates.
    Answer,
    SubConfirm,
    SubLang,
    EditStart,
    EditLangSelect,
    EditLang,
    Toggle,
    Delete,
    DeleteConfirm,
    /// A choice offered to a command sent without arguments.
    Menu,
    /// Data no handler takes.
    Ignore,
}

pub open spec fn spec_route(prefix: Seq<char>) -> Route {
    if prefix == "pick"@ || prefix == "pickall"@ || prefix == "skip"@ || prefix == "later"@ || prefix == "add"@
        || prefix == "noadd"@ {
        Route::Answer
    } else if prefix == "subc"@ {
        Route::SubConfirm
    } else if prefix == "sublang"@ {
        Route::SubLang
    } else if prefix == "edit"@ {
        Route::EditStart
    } else if prefix == "editlangsel"@ {
        Route::EditLangSelect
    } else if prefix == "editlang"@ {
        Route::EditLang
    } else if prefix == "toggle"@ {
        Route::Toggle
    } else if prefix == "del"@ {
        Route::Delete
    } else if prefix == "delc"@ {
        Route::DeleteConfirm
    } else if prefix == "menu"@ {
        Route::Menu
    } else {
        Route::Ignore
    }
}

/// Button data split at its first colon: the route's name and the rest,
/// empty when there is no colon.
pub open spec fn spec_split_callback(data: Seq<char>) -> (Seq<char>, Seq<char>) {
    (
        before_char(data, ':'),
        match after_char(data, ':') {
            Some(r) => r,
            None => Seq::empty(),
        },
    )
}

/// Where the data of a pressed button leads, and the rest of the data.
pub fn route_callback(data: &str) -> (r: (Route, String))
    ensures
        r.0 == spec_route(spec_split_callback(data@).0),
        r.1@ == spec_split_callback(data@).1,
{
    let d = chars_of(data);
    let (head, rest) = split_once_char(d.as_slice(), ':');
    let rest_s = match rest {
        Some(r) => string_of(r.as_slice()),
        None => String::new(),
    };
    let h = string_of(head.as_slice());
    let p = h.as_str();
    let route = if str_eq(p, "pick") || str_eq(p, "pickall") || str_eq(p, "skip") || str_eq(p, "later") || str_eq(
        p,
        "add",
    ) || str_eq(p, "noadd") {
        Route::Answer
    } else if str_eq(p, "subc") {
        Route::SubConfirm
    } else if str_eq(p, "sublang") {
        Route::SubLang
    } else if str_eq(p, "edit") {
        Route::EditStart
    } else if str_eq(p, "editlangsel") {
        Route::EditLangSelect
    } else if str_eq(p, "editlang") {
        Route::EditLang
    } else if str_eq(p, "toggle") {
        Route::Toggle
    } else if str_eq(p, "del") {
        Route::Delete
    } else if str_eq(p, "delc") {
        Route::DeleteConfirm
    } else if str_eq(p, "menu") {
        Route::Menu
    } else {
        Route::Ignore
    };
    (route, rest_s)
}

/// A subscription id in button data, 0 when it is not a number.
pub open spec fn id_or_zero(t: Seq<char>) -> i64 {
    number_or(t, 0)
}

/// Button data `<id>:<value>` split as `splitn(2, ':')` does: the id (0 when
/// it is not a number) and the value, when there is one.
pub open spec fn spec_id_and_value(rest: Seq<char>) -> (i64, Option<Seq<char>>) {
    (id_or_zero(before_char(rest, ':')), after_char(rest, ':'))
}

pub fn id_and_value(rest: &str) -> (r: (i64, Option<String>))
    ensures
        r.0 == spec_id_and_value(rest@).0,
        r.1.deep_view() == spec_id_and_value(rest@).1,
{
    let d = chars_of(rest);
    let (head, tail) = split_once_char(d.as_slice(), ':');
    let id = number_or_of(head.as_slice(), 0);
    let v = match tail {
        Some(t) => Some(string_of(t.as_slice())),
        None => None,
    };
    (id, v)
}

/// A subscription id as the whole button data, 0 when it is not a number.
pub fn id_of(rest: &str) -> (r: i64)
    ensures
        r == id_or_zero(rest@),
{
    number_or_of(chars_of(rest).as_slice(), 0)
}

/// Confirming the guessed title: on `yes` the conversation goes on to ask
/// for the first episode, keeping the feed and title it holds; otherwise
/// it ends.
pub open spec fn spec_on_sub_confirm(c: ConvState, rest: Seq<char>, r: (ConvChange, Reply)) -> bool {
    if rest == "yes"@ {
        &&& r.0 matches ConvChange::Store(Step::AwaitSubEpisode { rss_url, title })
        &&& rss_url@ == text_or_empty(c.rss_url) && title@ == text_or_empty(c.title)
        &&& r.1 == Reply::AskStart
    } else {
        r.0 is Clear && r.1 == Reply::AddCancelled
    }
}

pub fn on_sub_confirm(c: &ConvState, rest: &str) -> (r: (ConvChange, Reply))
    ensures
        spec_on_sub_confirm(*c, rest@, r),
{
    if str_eq(rest, "yes") {
        (
            ConvChange::Store(Step::AwaitSubEpisode { rss_url: text_of(&c.rss_url), title: text_of(&c.title) }),
            Reply::AskStart,
        )
    } else {
        (ConvChange::Clear, Reply::AddCancelled)
    }
}

/// A subscription to add at the end of the conversation.
#[derive(Debug)]
pub struct NewSub {
    pub rss_url: String,
    pub title: String,
    pub start_episode: i64,
    pub lang: String,
}

/// The subscription a conversation adds once a language is chosen: the
/// feed and title it holds (empty when absent), its first episode (1 when
/// absent), and the chosen language.
pub open spec fn spec_new_sub(c: ConvState, lang: Seq<char>, r: NewSub) -> bool {
    &&& r.rss_url@ == text_or_empty(c.rss_url)
    &&& r.title@ == text_or_empty(c.title)
    &&& r.start_episode == (match c.start_episode {
        Some(n) => n,
        None => 1,
    })
    &&& r.lang@ == lang
}

pub fn new_sub(c: &ConvState, lang: &str) -> (r: NewSub)
    ensures
        spec_new_sub(*c, lang@, r),
{
    let start = match c.start_episode {
        Some(n) => n,
        None => 1,
    };
    let mut l = String::new();
    crate::text::push_str(&mut l, lang);
    NewSub { rss_url: text_of(&c.rss_url), title: text_of(&c.title), start_episode: start, lang: l }
}

/// The current value of a subscription's field, shown before editing it:
/// empty for an unknown field or subscription.
pub open spec fn spec_current_value(field: Seq<char>, start: Option<i64>, include_kw: Option<Seq<char>>, exclude_kw: Option<Seq<char>>) -> Seq<char> {
    if field == "start_episode"@ {
        match start {
            Some(n) => crate::num::int_text(n as int),
            None => Seq::empty(),
        }
    } else if field == "include_kw"@ {
        match include_kw {
            Some(k) => k,
            None => Seq::empty(),
        }
    } else if field == "exclude_kw"@ {
        match exclude_kw {
            Some(k) => k,
            None => Seq::empty(),
        }
    } else {
        Seq::empty()
    }
}

/// The current value of a subscription's field.
pub fn current_value(field: &str, sub: Option<&crate::models::SubRow>) -> (r: String)
    ensures
        r@ == spec_current_value(
            field@,
            match sub {
                Some(s) => Some(s.start_episode),
                None => None,
            },
            match sub {
                Some(s) => Some(s.include_kw@),
                None => None,
            },
            match sub {
                Some(s) => Some(s.exclude_kw@),
                None => None,
            },
        ),
{
    match sub {
        Some(s) => if str_eq(field, "start_episode") {
            string_of(crate::num::i64_text(s.start_episode).as_slice())
        } else if str_eq(field, "include_kw") {
            s.include_kw.clone()
        } else if str_eq(field, "exclude_kw") {
            s.exclude_kw.clone()
        } else {
            String::new()
        },
        None => String::new(),
    }
}

/// The language named by `editlang` data: the value, `ask` when there is none.
pub open spec fn edit_lang_value(v: Option<Seq<char>>) -> Seq<char> {
    match v {
        Some(l) => l,
        None => "ask"@,
    }
}

pub fn edit_lang(rest: &str) -> (r: (i64, String))
    ensures
        r.0 == spec_id_and_value(rest@).0,
        r.1@ == edit_lang_value(spec_id_and_value(rest@).1),
{
    let (id, v) = id_and_value(rest);
    match v {
        Some(l) => (id, l),
        None => (id, "ask".to_owned()),
    }
}

/// Whether `delc` data confirms the deletion: its value is `yes`.
pub fn delete_confirmed(rest: &str) -> (r: (i64, bool))
    ensures
        r.0 == spec_id_and_value(rest@).0,
        r.1 == (spec_id_and_value(rest@).1 == Some("yes"@)),
{
    let (id, v) = id_and_value(rest);
    match v {
        Some(l) => (id, str_eq(l.as_str(), "yes")),
        None => (id, false),
    }
}

} // verus!
