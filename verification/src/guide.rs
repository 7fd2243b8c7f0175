//! Commands sent without their arguments: the choices offered (a
//! subscription, on or off, or a question for the value), and what a choice
//! leads to.
use vstd::prelude::*;
use crate::commands::{Guide, GuidedCmd, guide_kind, guide_of, guided_name, guided_name_of, guided_of, guided_word};
use crate::conversation::Step;
use crate::models::SubRow;
use crate::notifier::push_chars;
use crate::num::i64_text;
use crate::panels::{Button, text_button};
use crate::replies::{num, Reply};
use crate::text::{after_char, before_char, chars_of, push_str, split_once_char, string_of};

verus! {

/// The button for a subscription under a choice for `g`: labelled with its
/// id and title, leading to `menu:<command>:<id>`.
pub open spec fn subscription_button(g: GuidedCmd, s: SubRow) -> Button {
    ("#"@ + num(s.id) + " "@ + s.title@, "menu:"@ + guided_name(g) + ":"@ + num(s.id))
}

/// The choice of subscription for `g`: for `push` first a button for all of
/// them, then a row for each subscription.
pub open spec fn pick_keyboard(g: GuidedCmd, subs: Seq<SubRow>) -> Seq<Seq<Button>> {
    (if g == GuidedCmd::Push {
        seq![seq![("全部"@, "menu:push:all"@)]]
    } else {
        Seq::empty()
    }) + Seq::new(subs.len(), |i: int| seq![subscription_button(g, subs[i])])
}

/// The choice of on or off for `g`.
pub open spec fn switch_keyboard(g: GuidedCmd) -> Seq<Seq<Button>> {
    seq![seq![("开"@, "menu:"@ + guided_name(g) + ":on"@), ("关"@, "menu:"@ + guided_name(g) + ":off"@)]]
}

/// What a command sent without arguments shows.
#[derive(Debug)]
pub struct GuideOutcome {
    pub reply: Reply,
    pub keyboard: Option<Vec<Vec<(String, String)>>>,
    /// The conversation that waits for the value.
    pub conv: Option<Step>,
}

/// What `g` sent without arguments shows, given the subscriptions: the
/// subscriptions to choose from (none: that there are none), on and off, or
/// a question whose answer runs the command.
pub open spec fn spec_guide(g: GuidedCmd, subs: Seq<SubRow>, o: GuideOutcome) -> bool {
    match guide_of(g) {
        Guide::PickSubscription => if subs.len() == 0 {
            o.reply == Reply::NoSubs && o.keyboard is None && o.conv is None
        } else {
            &&& o.reply == Reply::PickSubscription(g)
            &&& o.keyboard matches Some(k) && k.deep_view() == pick_keyboard(g, subs)
            &&& o.conv is None
        },
        Guide::Switch => {
            &&& o.reply == Reply::PickSwitch(g)
            &&& o.keyboard matches Some(k) && k.deep_view() == switch_keyboard(g)
            &&& o.conv is None
        },
        Guide::Value => {
            &&& o.reply == Reply::AskValue(g)
            &&& o.keyboard is None
            &&& o.conv matches Some(Step::AwaitArg { cmd, first }) && cmd@ == guided_name(g) && first is None
        },
    }
}

fn subscription_row(g: GuidedCmd, s: &SubRow) -> (r: Vec<(String, String)>)
    ensures
        r.deep_view() == seq![subscription_button(g, *s)],
{
    let mut label = String::new();
    push_str(&mut label, "#");
    push_chars(&mut label, i64_text(s.id).as_slice());
    push_str(&mut label, " ");
    push_str(&mut label, s.title.as_str());
    let mut data = String::new();
    push_str(&mut data, "menu:");
    push_str(&mut data, guided_name_of(g));
    push_str(&mut data, ":");
    push_chars(&mut data, i64_text(s.id).as_slice());
    let ghost b = (label@, data@);
    let mut row: Vec<(String, String)> = Vec::new();
    row.push((label, data));
    assert(row.deep_view() =~= seq![b]);
    row
}

fn pick_rows(g: GuidedCmd, subs: &[SubRow]) -> (r: Vec<Vec<(String, String)>>)
    ensures
        r.deep_view() == pick_keyboard(g, subs@),
{
    let mut rows: Vec<Vec<(String, String)>> = Vec::new();
    if g == GuidedCmd::Push {
        let b = text_button("全部", "menu:push:all", "");
        proof {
            reveal_strlit("");
        }
        let ghost gb = (b.0@, b.1@);
        let mut row: Vec<(String, String)> = Vec::new();
        row.push(b);
        assert(row.deep_view() =~= seq![gb]);
        rows.push(row);
    }
    let ghost head = rows.deep_view();
    assert(head =~= (if g == GuidedCmd::Push {
        seq![seq![("全部"@, "menu:push:all"@)]]
    } else {
        Seq::<Seq<Button>>::empty()
    }));
    let mut k: usize = 0;
    while k < subs.len()
        invariant
            k <= subs.len(),
            rows.deep_view() == head + Seq::new(k as nat, |i: int| seq![subscription_button(g, subs@[i])]),
        decreases subs.len() - k,
    {
        let ghost before = rows.deep_view();
        let row = subscription_row(g, &subs[k]);
        let ghost r = row.deep_view();
        rows.push(row);
        assert(rows.deep_view() =~= before.push(r));
        k = k + 1;
        assert(rows.deep_view() =~= head + Seq::new(k as nat, |i: int| seq![subscription_button(g, subs@[i])]));
    }
    rows
}

fn switch_rows(g: GuidedCmd) -> (r: Vec<Vec<(String, String)>>)
    ensures
        r.deep_view() == switch_keyboard(g),
{
    let mut head = String::new();
    push_str(&mut head, "menu:");
    push_str(&mut head, guided_name_of(g));
    let on = text_button("开", head.as_str(), ":on");
    let off = text_button("关", head.as_str(), ":off");
    let ghost g1 = (on.0@, on.1@);
    let ghost g2 = (off.0@, off.1@);
    let mut row: Vec<(String, String)> = Vec::new();
    row.push(on);
    row.push(off);
    assert(row.deep_view() =~= seq![g1, g2]);
    let ghost gr = row.deep_view();
    let mut rows: Vec<Vec<(String, String)>> = Vec::new();
    rows.push(row);
    assert(rows.deep_view() =~= seq![gr]);
    rows
}

/// What a command sent without arguments shows.
pub fn guide(g: GuidedCmd, subs: &[SubRow]) -> (o: GuideOutcome)
    ensures
        spec_guide(g, subs@, o),
{
    match guide_kind(g) {
        Guide::PickSubscription => if subs.len() == 0 {
            GuideOutcome { reply: Reply::NoSubs, keyboard: None, conv: None }
        } else {
            GuideOutcome { reply: Reply::PickSubscription(g), keyboard: Some(pick_rows(g, subs)), conv: None }
        },
        Guide::Switch => GuideOutcome { reply: Reply::PickSwitch(g), keyboard: Some(switch_rows(g)), conv: None },
        Guide::Value => {
            let mut cmd = String::new();
            push_str(&mut cmd, guided_name_of(g));
            GuideOutcome { reply: Reply::AskValue(g), keyboard: None, conv: Some(Step::AwaitArg { cmd, first: None }) }
        },
    }
}

/// Whether a command takes a value after the subscription chosen for it.
pub open spec fn needs_value(g: GuidedCmd) -> bool {
    g == GuidedCmd::Total || g == GuidedCmd::Bgm || g == GuidedCmd::Backup
}

/// What a choice leads to.
#[derive(Debug)]
pub enum MenuNext {
    /// Run the command with these arguments.
    Run(String, Vec<String>),
    /// Ask for the command's value, keeping the choice.
    Ask(Step, Reply),
}

/// What the choice `<command>:<argument>` (the data of a button after
/// `menu:`) leads to: the command run with the argument, or, for a command
/// that takes a value after its subscription, a question for that value.
/// Nothing for another command or data without an argument.
pub open spec fn spec_menu_next(rest: Seq<char>, r: Option<MenuNext>) -> bool {
    let name = before_char(rest, ':');
    match (guided_of(name), after_char(rest, ':')) {
        (Some(g), Some(a)) => if needs_value(g) {
            r matches Some(MenuNext::Ask(Step::AwaitArg { cmd, first }, reply)) && cmd@ == name && first.deep_view()
                == Some(a) && reply == Reply::AskValue(g)
        } else {
            r matches Some(MenuNext::Run(c, args)) && c@ == name && args.deep_view() == seq![a]
        },
        _ => r is None,
    }
}

/// What a choice leads to.
pub fn menu_next(rest: &str) -> (r: Option<MenuNext>)
    ensures
        spec_menu_next(rest@, r),
{
    let d = chars_of(rest);
    let (name_v, arg_v) = split_once_char(d.as_slice(), ':');
    let name = string_of(name_v.as_slice());
    let g = match guided_word(name.as_str()) {
        Some(g) => g,
        None => return None,
    };
    let a = match arg_v {
        Some(a) => {
            assert(after_char(rest@, ':') == Some(a@));
            string_of(a.as_slice())
        },
        None => {
            assert(after_char(rest@, ':') is None);
            return None;
        },
    };
    assert(name@ == before_char(rest@, ':'));
    if g == GuidedCmd::Total || g == GuidedCmd::Bgm || g == GuidedCmd::Backup {
        Some(MenuNext::Ask(Step::AwaitArg { cmd: name, first: Some(a) }, Reply::AskValue(g)))
    } else {
        let ghost av = a@;
        let mut args: Vec<String> = Vec::new();
        args.push(a);
        assert(args.deep_view() =~= seq![av]);
        Some(MenuNext::Run(name, args))
    }
}

} // verus!
