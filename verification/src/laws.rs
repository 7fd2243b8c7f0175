//! Properties that span several functions of the library: the buttons the
//! bot shows are read back as the answers they stand for, and a choice made
//! once decides the episode from then on.
use vstd::prelude::*;
use crate::answer::{Answer, AnswerRequest, answer_of, spec_parse_answer, spec_plan_answer};
use crate::models::Candidate;
use crate::num::{decimal, int_text, is_digit_char, law_decimal_round_trip, law_i64_round_trip, lemma_int_text_chars};
use crate::scheduler::{
    DecisionView, lemma_first_with_version, pick_row, spec_decide_fresh, fresh_buttons, update_buttons,
};
use crate::text::{lemma_split_first, lemma_split_none};
use crate::conversation::{Route, id_or_zero, spec_id_and_value, spec_route, spec_split_callback};
use crate::panels::{spec_delete_keyboard, spec_edit_keyboard};
use crate::replies::num;
use crate::filter::lemma_filter_by_lang_sound;
use crate::models::TitleView;
use crate::parser::spec_parse_title;
use crate::scheduler::{best_version, missing_in, seq_max, spec_admit, spec_gap_notice, spec_missing_episodes};
use crate::timing::spec_poll_wait;
use crate::commands::{CommandView, Guide, GuidedCmd, arg_id, guide_of, guided_name, guided_of, spec_command};
use crate::guide::{MenuNext, needs_value, spec_menu_next, subscription_button};
use crate::models::SubRow;
use crate::models::{Lang, label_of};
use crate::filter::spec_matches_keywords;
use crate::parser::{spec_detect_lang, spec_fansub_rest};
use crate::scheduler::{gap_signature, spec_screen};
use crate::num::pad2;
use crate::text::{contains, spec_lowercase, split, trim};

verus! {

proof fn lemma_no_colon_in_number(n: i64)
    ensures
        forall|k: int| 0 <= k < int_text(n as int).len() ==> int_text(n as int)[k] != ':',
{
    lemma_int_text_chars(n as int);
    assert forall|k: int| 0 <= k < int_text(n as int).len() implies int_text(n as int)[k] != ':' by {
        assert(is_digit_char(int_text(n as int)[k]) || int_text(n as int)[k] == '-');
    }
}

/// Data `<cmd>:<pid>` is read as the answer `cmd` names to the question `pid`.
proof fn lemma_read_plain(cmd: Seq<char>, pid: i64)
    requires
        forall|k: int| 0 <= k < cmd.len() ==> cmd[k] != ':',
    ensures
        spec_parse_answer(cmd + seq![':'] + int_text(pid as int)) == Some(
            AnswerRequest { answer: answer_of(cmd), pending_id: pid, index: None },
        ),
{
    lemma_split_first(cmd, ':', int_text(pid as int));
    lemma_no_colon_in_number(pid);
    lemma_split_none(int_text(pid as int), ':');
    law_i64_round_trip(pid);
}

/// Data `<cmd>:<pid>:<i>` is read as the answer `cmd` names to the question
/// `pid`, choosing the candidate at `i`.
proof fn lemma_read_indexed(cmd: Seq<char>, pid: i64, i: nat)
    requires
        forall|k: int| 0 <= k < cmd.len() ==> cmd[k] != ':',
        i <= usize::MAX,
    ensures
        spec_parse_answer(cmd + seq![':'] + (int_text(pid as int) + seq![':'] + decimal(i))) == Some(
            AnswerRequest { answer: answer_of(cmd), pending_id: pid, index: Some(i as usize) },
        ),
{
    lemma_split_first(cmd, ':', int_text(pid as int) + seq![':'] + decimal(i));
    lemma_no_colon_in_number(pid);
    lemma_split_first(int_text(pid as int), ':', decimal(i));
    law_i64_round_trip(pid);
    law_decimal_round_trip(i, usize::MAX as nat);
}

/// The button for the `i`-th candidate under a question (`pick:` or `add:`)
/// is read back as choosing that candidate of that question.
proof fn lemma_pick_row(cmd: Seq<char>, pid: i64, n: nat, i: int)
    requires
        forall|k: int| 0 <= k < cmd.len() ==> cmd[k] != ':',
        0 <= i < pick_row(cmd + seq![':'], pid, n).len(),
    ensures
        spec_parse_answer(pick_row(cmd + seq![':'], pid, n)[i].1) == Some(
            AnswerRequest { answer: answer_of(cmd), pending_id: pid, index: Some(i as usize) },
        ),
{
    reveal_strlit(":");
    let d = pick_row(cmd + seq![':'], pid, n)[i].1;
    assert(d =~= cmd + seq![':'] + (int_text(pid as int) + seq![':'] + decimal(i as nat)));
    lemma_read_indexed(cmd, pid, i as nat);
}

proof fn lemma_answer_words()
    ensures
        answer_of("pick"@) == Answer::Pick,
        answer_of("pickall"@) == Answer::PickAll,
        answer_of("skip"@) == Answer::Skip,
        answer_of("later"@) == Answer::Later,
        answer_of("add"@) == Answer::Add,
        answer_of("noadd"@) == Answer::NoAdd,
{
    reveal_strlit("pick");
    reveal_strlit("pickall");
    reveal_strlit("skip");
    reveal_strlit("later");
    reveal_strlit("add");
    reveal_strlit("noadd");
    assert("pickall"@.len() != "pick"@.len());
    assert("skip"@[0] != "pick"@[0]);
    assert("noadd"@[0] != "later"@[0]);
}

/// `<word>:` as the word followed by a colon, for the words of the buttons.
proof fn lemma_colon_words()
    ensures
        "pick:"@ == "pick"@ + seq![':'],
        "pickall:"@ == "pickall"@ + seq![':'],
        "skip:"@ == "skip"@ + seq![':'],
        "later:"@ == "later"@ + seq![':'],
        "add:"@ == "add"@ + seq![':'],
        "noadd:"@ == "noadd"@ + seq![':'],
        forall|k: int| 0 <= k < "pick"@.len() ==> "pick"@[k] != ':',
        forall|k: int| 0 <= k < "pickall"@.len() ==> "pickall"@[k] != ':',
        forall|k: int| 0 <= k < "skip"@.len() ==> "skip"@[k] != ':',
        forall|k: int| 0 <= k < "later"@.len() ==> "later"@[k] != ':',
        forall|k: int| 0 <= k < "add"@.len() ==> "add"@[k] != ':',
        forall|k: int| 0 <= k < "noadd"@.len() ==> "noadd"@[k] != ':',
{
    reveal_strlit("pick:");
    reveal_strlit("pick");
    reveal_strlit("pickall:");
    reveal_strlit("pickall");
    reveal_strlit("skip:");
    reveal_strlit("skip");
    reveal_strlit("later:");
    reveal_strlit("later");
    reveal_strlit("add:");
    reveal_strlit("add");
    reveal_strlit("noadd:");
    reveal_strlit("noadd");
    assert("pick:"@ =~= "pick"@ + seq![':']);
    assert("pickall:"@ =~= "pickall"@ + seq![':']);
    assert("skip:"@ =~= "skip"@ + seq![':']);
    assert("later:"@ =~= "later"@ + seq![':']);
    assert("add:"@ =~= "add"@ + seq![':']);
    assert("noadd:"@ =~= "noadd"@ + seq![':']);
}

/// The buttons under a question about fresh candidates (of `n` candidates,
/// the question being `pid`) are read back as the answers they are labelled
/// with: the `i`-th candidate button chooses the `i`-th candidate of that
/// question; then come "all", "skip" and "later".
pub proof fn law_fresh_buttons_read_back(pid: i64, n: nat, i: int)
    requires
        0 <= i < fresh_buttons(pid, n)[0].len(),
    ensures
        spec_parse_answer(fresh_buttons(pid, n)[0][i].1) == Some(
            AnswerRequest { answer: Answer::Pick, pending_id: pid, index: Some(i as usize) },
        ),
        spec_parse_answer(fresh_buttons(pid, n)[1][0].1) == Some(
            AnswerRequest { answer: Answer::PickAll, pending_id: pid, index: None },
        ),
        spec_parse_answer(fresh_buttons(pid, n)[1][1].1) == Some(
            AnswerRequest { answer: Answer::Skip, pending_id: pid, index: None },
        ),
        spec_parse_answer(fresh_buttons(pid, n)[1][2].1) == Some(
            AnswerRequest { answer: Answer::Later, pending_id: pid, index: None },
        ),
{
    lemma_answer_words();
    lemma_colon_words();
    lemma_pick_row("pick"@, pid, n, i);
    lemma_read_plain("pickall"@, pid);
    lemma_read_plain("skip"@, pid);
    lemma_read_plain("later"@, pid);
}

/// The buttons under a question about new versions (of `n` candidates, the
/// question being `pid`) are read back as the answers they are labelled
/// with: the `i`-th candidate button adds the `i`-th candidate of that
/// question; then come "ignore" and "later".
pub proof fn law_update_buttons_read_back(pid: i64, n: nat, i: int)
    requires
        0 <= i < update_buttons(pid, n)[0].len(),
    ensures
        spec_parse_answer(update_buttons(pid, n)[0][i].1) == Some(
            AnswerRequest { answer: Answer::Add, pending_id: pid, index: Some(i as usize) },
        ),
        spec_parse_answer(update_buttons(pid, n)[1][0].1) == Some(
            AnswerRequest { answer: Answer::NoAdd, pending_id: pid, index: None },
        ),
        spec_parse_answer(update_buttons(pid, n)[1][1].1) == Some(
            AnswerRequest { answer: Answer::Later, pending_id: pid, index: None },
        ),
{
    lemma_answer_words();
    lemma_colon_words();
    lemma_pick_row("add"@, pid, n, i);
    lemma_read_plain("noadd"@, pid);
    lemma_read_plain("later"@, pid);
}

/// Choosing a candidate remembers its language and version, so that the
/// next decision about the same candidates pushes one candidate of that
/// version without asking again.
pub proof fn law_choice_remembered(c: Seq<Candidate>, i: usize, title: Seq<char>, lang_pref: Seq<char>, ep: u32)
    requires
        i < c.len(),
    ensures
        (match spec_plan_answer(Answer::Pick, Some(i), c, title, lang_pref, ep) {
            Ok(p) => p.remember == Some((c[i as int].lang@, Some(c[i as int].version as i64))) && (match spec_decide_fresh(
                p.remember,
                lang_pref,
                c,
            ) {
                DecisionView::Push(s) => s.len() == 1 && s[0].version == c[i as int].version,
                _ => false,
            }),
            Err(_) => false,
        }),
{
    let v = c[i as int].version as i64;
    lemma_first_with_version(c, v, c.len() as int);
    assert(c.take(c.len() as int) =~= c);
}

/// Declining the candidates of an episode ("skip" for fresh ones, "ignore"
/// for new versions) is remembered, so that the episode is skipped from
/// then on, whatever candidates come.
pub proof fn law_decline_remembered(
    answer: Answer,
    index: Option<usize>,
    c: Seq<Candidate>,
    title: Seq<char>,
    lang_pref: Seq<char>,
    ep: u32,
    later: Seq<Candidate>,
)
    requires
        answer == Answer::Skip || answer == Answer::NoAdd,
    ensures
        (match spec_plan_answer(answer, index, c, title, lang_pref, ep) {
            Ok(p) => p.push.len() == 0 && spec_decide_fresh(p.remember, lang_pref, later) == DecisionView::Skip,
            Err(_) => false,
        }),
{
}

proof fn lemma_route_words()
    ensures
        spec_route("edit"@) == Route::EditStart,
        spec_route("editlangsel"@) == Route::EditLangSelect,
        spec_route("editlang"@) == Route::EditLang,
        spec_route("toggle"@) == Route::Toggle,
        spec_route("del"@) == Route::Delete,
        spec_route("delc"@) == Route::DeleteConfirm,
        spec_route("sublang"@) == Route::SubLang,
{
    reveal_strlit("pick");
    reveal_strlit("pickall");
    reveal_strlit("skip");
    reveal_strlit("later");
    reveal_strlit("add");
    reveal_strlit("noadd");
    reveal_strlit("subc");
    reveal_strlit("sublang");
    reveal_strlit("edit");
    reveal_strlit("editlangsel");
    reveal_strlit("editlang");
    reveal_strlit("toggle");
    reveal_strlit("del");
    reveal_strlit("delc");
    assert("edit"@[0] != "pick"@[0] && "edit"@[0] != "skip"@[0] && "edit"@[0] != "subc"@[0]);
    assert("del"@[0] != "add"@[0]);
    assert("delc"@[0] != "pick"@[0] && "delc"@[0] != "skip"@[0] && "delc"@[0] != "subc"@[0] && "delc"@[0]
        != "edit"@[0]);
    assert("sublang"@[0] != "pickall"@[0]);
    assert("editlangsel"@.len() == 11 && "editlang"@.len() == 8);
    assert("pick"@.len() == 4 && "pickall"@.len() == 7 && "skip"@.len() == 4 && "later"@.len() == 5);
    assert("add"@.len() == 3 && "noadd"@.len() == 5 && "subc"@.len() == 4 && "sublang"@.len() == 7);
    assert("edit"@.len() == 4 && "del"@.len() == 3 && "delc"@.len() == 4 && "toggle"@.len() == 6);
}

/// `<word>:<id><tail>` splits into the word and `<id><tail>`, and a tail
/// `:<value>` gives the id and the value.
proof fn lemma_id_data(word: Seq<char>, id: i64, value: Seq<char>)
    requires
        forall|k: int| 0 <= k < word.len() ==> word[k] != ':',
    ensures
        spec_split_callback(word + seq![':'] + (num(id) + seq![':'] + value)) == (word, num(id) + seq![':'] + value),
        spec_id_and_value(num(id) + seq![':'] + value) == (id, Some(value)),
        spec_split_callback(word + seq![':'] + num(id)) == (word, num(id)),
        id_or_zero(num(id)) == id,
{
    lemma_split_first(word, ':', num(id) + seq![':'] + value);
    lemma_split_first(word, ':', num(id));
    lemma_no_colon_in_number(id);
    lemma_split_first(num(id), ':', value);
    law_i64_round_trip(id);
}

/// The buttons to edit a subscription lead to the handlers for that
/// subscription: its first episode, language, keywords, switch and deletion.
pub proof fn law_edit_buttons_route(id: i64)
    ensures
        ({
            let k = spec_edit_keyboard(id);
            &&& spec_route(spec_split_callback(k[0][0].1).0) == Route::EditStart
            &&& spec_id_and_value(spec_split_callback(k[0][0].1).1) == (id, Some("start_episode"@))
            &&& spec_route(spec_split_callback(k[0][1].1).0) == Route::EditLangSelect
            &&& id_or_zero(spec_split_callback(k[0][1].1).1) == id
            &&& spec_route(spec_split_callback(k[1][0].1).0) == Route::EditStart
            &&& spec_id_and_value(spec_split_callback(k[1][0].1).1) == (id, Some("include_kw"@))
            &&& spec_route(spec_split_callback(k[1][1].1).0) == Route::EditStart
            &&& spec_id_and_value(spec_split_callback(k[1][1].1).1) == (id, Some("exclude_kw"@))
            &&& spec_route(spec_split_callback(k[2][0].1).0) == Route::Toggle
            &&& id_or_zero(spec_split_callback(k[2][0].1).1) == id
            &&& spec_route(spec_split_callback(k[2][1].1).0) == Route::Delete
            &&& id_or_zero(spec_split_callback(k[2][1].1).1) == id
        }),
{
    lemma_route_words();
    reveal_strlit("edit:");
    reveal_strlit("edit");
    reveal_strlit("editlangsel:");
    reveal_strlit("editlangsel");
    reveal_strlit("toggle:");
    reveal_strlit("toggle");
    reveal_strlit("del:");
    reveal_strlit("del");
    reveal_strlit(":start_episode");
    reveal_strlit("start_episode");
    reveal_strlit(":include_kw");
    reveal_strlit("include_kw");
    reveal_strlit(":exclude_kw");
    reveal_strlit("exclude_kw");
    let n = num(id);
    assert("edit:"@ + n + ":start_episode"@ =~= "edit"@ + seq![':'] + (n + seq![':'] + "start_episode"@));
    assert("edit:"@ + n + ":include_kw"@ =~= "edit"@ + seq![':'] + (n + seq![':'] + "include_kw"@));
    assert("edit:"@ + n + ":exclude_kw"@ =~= "edit"@ + seq![':'] + (n + seq![':'] + "exclude_kw"@));
    assert("editlangsel:"@ + n =~= "editlangsel"@ + seq![':'] + n);
    assert("toggle:"@ + n =~= "toggle"@ + seq![':'] + n);
    assert("del:"@ + n =~= "del"@ + seq![':'] + n);
    lemma_id_data("edit"@, id, "start_episode"@);
    lemma_id_data("edit"@, id, "include_kw"@);
    lemma_id_data("edit"@, id, "exclude_kw"@);
    lemma_id_data("editlangsel"@, id, Seq::empty());
    lemma_id_data("toggle"@, id, Seq::empty());
    lemma_id_data("del"@, id, Seq::empty());
}

/// The buttons to confirm a deletion lead to the confirmation handler for
/// that subscription, with `yes` and `no`.
pub proof fn law_delete_buttons_route(id: i64)
    ensures
        ({
            let k = spec_delete_keyboard(id);
            &&& spec_route(spec_split_callback(k[0][0].1).0) == Route::DeleteConfirm
            &&& spec_id_and_value(spec_split_callback(k[0][0].1).1) == (id, Some("yes"@))
            &&& spec_route(spec_split_callback(k[0][1].1).0) == Route::DeleteConfirm
            &&& spec_id_and_value(spec_split_callback(k[0][1].1).1) == (id, Some("no"@))
        }),
{
    lemma_route_words();
    reveal_strlit("delc:");
    reveal_strlit("delc");
    reveal_strlit(":yes");
    reveal_strlit("yes");
    reveal_strlit(":no");
    reveal_strlit("no");
    let n = num(id);
    assert("delc:"@ + n + ":yes"@ =~= "delc"@ + seq![':'] + (n + seq![':'] + "yes"@));
    assert("delc:"@ + n + ":no"@ =~= "delc"@ + seq![':'] + (n + seq![':'] + "no"@));
    lemma_id_data("delc"@, id, "yes"@);
    lemma_id_data("delc"@, id, "no"@);
}

proof fn lemma_best_version(c: Seq<Candidate>, idxs: Seq<usize>)
    requires
        idxs.len() > 0,
    ensures
        idxs.contains(best_version(c, idxs)),
    decreases idxs.len(),
{
    if idxs.len() > 1 {
        lemma_best_version(c, idxs.drop_last());
        let b = best_version(c, idxs.drop_last());
        let j = choose|j: int| 0 <= j < idxs.drop_last().len() && idxs.drop_last()[j] == b;
        assert(idxs[j] == b);
        assert(idxs[idxs.len() - 1] == idxs.last());
    } else {
        assert(idxs[0] == best_version(c, idxs));
    }
}

/// Whatever the remembered choice and the language preference, a decision
/// to push pushes exactly one of the candidates offered.
pub proof fn law_push_is_offered(pref: Option<(Seq<char>, Option<i64>)>, lang_pref: Seq<char>, c: Seq<Candidate>)
    requires
        c.len() <= usize::MAX,
    ensures
        spec_decide_fresh(pref, lang_pref, c) matches DecisionView::Push(s) ==> s.len() == 1 && c.contains(s[0]),
{
    match pref {
        Some((lang, Some(v))) => {
            lemma_first_with_version(c, v, c.len() as int);
            assert(c.take(c.len() as int) =~= c);
            lemma_filter_by_lang_sound(c, lang);
            let idxs = crate::filter::spec_filter_by_lang(c, lang);
            if idxs.len() > 0 {
                lemma_best_version(c, idxs);
                let j = choose|j: int| 0 <= j < idxs.len() && idxs[j] == best_version(c, idxs);
                assert(idxs[j] < c.len());
            }
        },
        Some((_, None)) => {},
        None => {
            lemma_filter_by_lang_sound(c, lang_pref);
            let idxs = crate::filter::spec_filter_by_lang(c, lang_pref);
            if idxs.len() > 0 {
                assert(idxs[0] < c.len());
            }
        },
    }
}

/// A magnet link (or feed item) pushed before never becomes a candidate
/// again.
pub proof fn law_no_repush(
    p: TitleView,
    magnet: Option<Seq<char>>,
    link_pushed: bool,
    pending: bool,
    magnet_pushed: bool,
    pushed: Seq<(i64, String)>,
)
    requires
        magnet_pushed || link_pushed,
    ensures
        !spec_admit(p, magnet, link_pushed, pending, magnet_pushed, pushed),
{
}

/// A collection is never taken for an episode: it has no episode number,
/// version 1, and is no half episode.
pub proof fn law_collection_has_no_episode(raw: Seq<char>)
    ensures
        spec_parse_title(raw).is_collection ==> spec_parse_title(raw).episode is None && spec_parse_title(raw).version
            == 1 && !spec_parse_title(raw).is_half,
{
}

/// A set of missing episodes is reported once: after its signature is
/// stored, the same set is not reported again.
pub proof fn law_gap_reported_once(missing: Seq<i64>, notified: Option<Seq<char>>)
    ensures
        spec_gap_notice(missing, notified) matches Some(sig) ==> spec_gap_notice(missing, Some(sig)) is None,
{
}

proof fn lemma_missing_in(p: Seq<i64>, lo: int, hi: int)
    requires
        i64::MIN <= lo,
        hi <= i64::MAX,
    ensures
        forall|x: i64| #[trigger] missing_in(p, lo, hi).contains(x) <==> lo <= x <= hi && !p.contains(x),
        forall|a: int, b: int|
            0 <= a < b < missing_in(p, lo, hi).len() ==> missing_in(p, lo, hi)[a] < missing_in(p, lo, hi)[b],
        forall|a: int| 0 <= a < missing_in(p, lo, hi).len() ==> lo <= #[trigger] missing_in(p, lo, hi)[a] <= hi,
    decreases hi - lo + 1,
{
    if hi >= lo {
        lemma_missing_in(p, lo, hi - 1);
        let r = missing_in(p, lo, hi - 1);
        let t: Seq<i64> = if p.contains(hi as i64) {
            seq![]
        } else {
            seq![hi as i64]
        };
        let m = r + t;
        assert(m == missing_in(p, lo, hi));
        assert forall|x: i64| #[trigger] m.contains(x) <==> lo <= x <= hi && !p.contains(x) by {
            if m.contains(x) {
                let k = choose|k: int| 0 <= k < m.len() && m[k] == x;
                if k < r.len() {
                    assert(r[k] == x);
                    assert(r.contains(x));
                }
            }
            if lo <= x <= hi && !p.contains(x) {
                if x < hi {
                    assert(r.contains(x));
                    let k = choose|k: int| 0 <= k < r.len() && r[k] == x;
                    assert(m[k] == x);
                } else {
                    assert(m[r.len() as int] == x);
                }
            }
        }
        assert forall|a: int| 0 <= a < m.len() implies lo <= #[trigger] m[a] <= hi by {
            if a < r.len() {
                assert(m[a] == r[a]);
            }
        }
        assert forall|a: int, b: int| 0 <= a < b < m.len() implies m[a] < m[b] by {
            assert(m[a] == r[a]);
            if b < r.len() {
                assert(m[b] == r[b]);
            }
        }
    }
}

/// The missing episodes are exactly the episodes from the start episode (at
/// least 1) to the highest pushed one that were not pushed, ascending.
pub proof fn law_missing_episodes(pushed: Seq<i64>, start_episode: i64)
    requires
        pushed.len() > 0,
    ensures
        ({
            let lo: int = if start_episode > 1 { start_episode as int } else { 1 };
            let m = spec_missing_episodes(pushed, start_episode);
            &&& forall|x: i64| #[trigger] m.contains(x) <==> lo <= x <= seq_max(pushed) && !pushed.contains(x)
            &&& forall|a: int, b: int| 0 <= a < b < m.len() ==> m[a] < m[b]
        }),
{
    let lo: int = if start_episode > 1 { start_episode as int } else { 1 };
    lemma_missing_in(pushed, lo, seq_max(pushed) as int);
}

/// The sleep between polls is never under 30 seconds, and never over the
/// interval (at least one minute) when that is longer.
pub proof fn law_poll_wait_bounds(interval_min: i64, elapsed: u64)
    ensures
        30 <= spec_poll_wait(interval_min, elapsed),
        spec_poll_wait(interval_min, elapsed) <= (if interval_min < 1 {
            60
        } else {
            if interval_min * 60 < 30 {
                30
            } else {
                interval_min * 60
            }
        }),
{
}

/// The command a subscription chosen from a picker runs: the one sent
/// without arguments, on that subscription.
pub open spec fn picked_command(g: GuidedCmd, id: i64) -> CommandView {
    match g {
        GuidedCmd::Show => CommandView::Show(id),
        GuidedCmd::Edit => CommandView::Edit(id),
        GuidedCmd::Del => CommandView::Del(id),
        GuidedCmd::Push => CommandView::Push(id),
        _ => CommandView::RmBackup(id),
    }
}

proof fn lemma_command_words()
    ensures
        guided_of("show"@) == Some(GuidedCmd::Show),
        guided_of("edit"@) == Some(GuidedCmd::Edit),
        guided_of("del"@) == Some(GuidedCmd::Del),
        guided_of("push"@) == Some(GuidedCmd::Push),
        guided_of("rmbackup"@) == Some(GuidedCmd::RmBackup),
        forall|a: Seq<Seq<char>>| #[trigger] spec_command("show"@, a) == (if a.len() == 0 {
            CommandView::Guided(GuidedCmd::Show)
        } else {
            CommandView::Show(arg_id(a))
        }),
        forall|a: Seq<Seq<char>>| #[trigger] spec_command("edit"@, a) == (if a.len() == 0 {
            CommandView::Guided(GuidedCmd::Edit)
        } else {
            CommandView::Edit(arg_id(a))
        }),
        forall|a: Seq<Seq<char>>| #[trigger] spec_command("del"@, a) == (if a.len() == 0 {
            CommandView::Guided(GuidedCmd::Del)
        } else {
            CommandView::Del(arg_id(a))
        }),
        forall|a: Seq<Seq<char>>| #[trigger] spec_command("push"@, a) == (if a.len() == 0 {
            CommandView::Guided(GuidedCmd::Push)
        } else if crate::commands::arg(a, 0) == Some("all"@) {
            CommandView::PushAll
        } else {
            CommandView::Push(arg_id(a))
        }),
        forall|a: Seq<Seq<char>>| #[trigger] spec_command("rmbackup"@, a) == (if a.len() == 0 {
            CommandView::Guided(GuidedCmd::RmBackup)
        } else {
            CommandView::RmBackup(arg_id(a))
        }),
{
    reveal_strlit("start");
    reveal_strlit("help");
    reveal_strlit("admin");
    reveal_strlit("bind");
    reveal_strlit("sub");
    reveal_strlit("list");
    reveal_strlit("show");
    reveal_strlit("edit");
    reveal_strlit("del");
    reveal_strlit("push");
    reveal_strlit("rmbackup");
    reveal_strlit("test");
    reveal_strlit("status");
    reveal_strlit("logs");
    reveal_strlit("cancel");
    reveal_strlit("rss");
    reveal_strlit("interval");
    reveal_strlit("skiphalf");
    reveal_strlit("gap");
    reveal_strlit("slack");
    reveal_strlit("autodisable");
    reveal_strlit("total");
    reveal_strlit("bgm");
    reveal_strlit("backup");
    assert("show"@[0] != "sub"@[0] || "show"@.len() != "sub"@.len());
    assert("show"@[1] != "sub"@[1]);
    assert("show"@[0] != "help"@[0] && "show"@[0] != "bind"@[0] && "show"@[0] != "list"@[0]);
    assert("show"@.len() != "start"@.len() && "show"@.len() != "admin"@.len());
    assert("edit"@[0] != "help"@[0] && "edit"@[0] != "bind"@[0] && "edit"@[0] != "list"@[0] && "edit"@[0] != "show"@[0]);
    assert("edit"@[0] != "sub"@[0] && "edit"@[0] != "push"@[0]);
    assert("edit"@.len() != "start"@.len() && "edit"@.len() != "admin"@.len());
    assert("del"@[0] != "sub"@[0] && "del"@[0] != "rss"@[0] && "del"@[0] != "gap"@[0] && "del"@[0] != "bgm"@[0]);
    assert("del"@.len() != "start"@.len() && "del"@.len() != "help"@.len() && "del"@.len() != "admin"@.len()
        && "del"@.len() != "bind"@.len() && "del"@.len() != "list"@.len() && "del"@.len() != "show"@.len()
        && "del"@.len() != "edit"@.len());
    assert("push"@[0] != "help"@[0] && "push"@[0] != "bind"@[0] && "push"@[0] != "list"@[0] && "push"@[0]
        != "show"@[0] && "push"@[0] != "edit"@[0] && "push"@[0] != "sub"@[0]);
    assert("push"@.len() != "start"@.len() && "push"@.len() != "admin"@.len() && "push"@.len() != "del"@.len());
    assert("rmbackup"@.len() == 8 && "interval"@.len() == 8 && "skiphalf"@.len() == 8);
    assert("rmbackup"@[0] != "interval"@[0] && "rmbackup"@[0] != "skiphalf"@[0]);
    assert("start"@.len() == 5 && "help"@.len() == 4 && "admin"@.len() == 5 && "bind"@.len() == 4);
    assert("sub"@.len() == 3 && "list"@.len() == 4 && "test"@.len() == 4 && "status"@.len() == 6);
    assert("logs"@.len() == 4 && "cancel"@.len() == 6 && "rss"@.len() == 3 && "gap"@.len() == 3);
    assert("slack"@.len() == 5 && "autodisable"@.len() == 11 && "total"@.len() == 5 && "bgm"@.len() == 3);
    assert("backup"@.len() == 6 && "show"@.len() == 4 && "edit"@.len() == 4 && "push"@.len() == 4);
}

/// Every command that takes arguments, sent by its name alone, starts its
/// guided dialogue instead of running on made-up arguments.
pub proof fn law_bare_command_is_guided(g: GuidedCmd)
    ensures
        spec_command(guided_name(g), seq![]) == CommandView::Guided(g),
{
    reveal_strlit("sub");
    reveal_strlit("show");
    reveal_strlit("edit");
    reveal_strlit("del");
    reveal_strlit("push");
    reveal_strlit("rss");
    reveal_strlit("interval");
    reveal_strlit("skiphalf");
    reveal_strlit("gap");
    reveal_strlit("slack");
    reveal_strlit("autodisable");
    reveal_strlit("total");
    reveal_strlit("bgm");
    reveal_strlit("backup");
    reveal_strlit("rmbackup");
    let n = guided_name(g);
    // Names of one length differ in their first or second character.
    assert("show"@[0] != "edit"@[0] && "show"@[1] != "push"@[1] && "edit"@[0] != "push"@[0]);
    assert("sub"@[0] != "del"@[0] && "sub"@[0] != "rss"@[0] && "sub"@[0] != "gap"@[0] && "sub"@[0] != "bgm"@[0]);
    assert("del"@[0] != "rss"@[0] && "del"@[0] != "gap"@[0] && "del"@[0] != "bgm"@[0]);
    assert("rss"@[0] != "gap"@[0] && "rss"@[0] != "bgm"@[0] && "gap"@[0] != "bgm"@[0]);
    assert("slack"@[0] != "total"@[0]);
    assert("interval"@[0] != "skiphalf"@[0] && "interval"@[0] != "rmbackup"@[0] && "skiphalf"@[0] != "rmbackup"@[0]);
    match g {
        GuidedCmd::Sub => assert(guided_of(n) == Some(g)),
        GuidedCmd::Show => {
            assert(n == "show"@);
            assert(n != "sub"@);
        },
        GuidedCmd::Edit => {
            assert(n == "edit"@);
            assert(n != "sub"@);
            assert(n != "show"@);
        },
        GuidedCmd::Del => {
            assert(n == "del"@);
            assert(n != "sub"@);
            assert(n != "show"@);
            assert(n != "edit"@);
        },
        GuidedCmd::Push => {
            assert(n == "push"@);
            assert(n != "sub"@);
            assert(n != "show"@);
            assert(n != "edit"@);
            assert(n != "del"@);
        },
        GuidedCmd::Rss => {
            assert(n == "rss"@);
            assert(n != "sub"@);
            assert(n != "show"@);
            assert(n != "edit"@);
            assert(n != "del"@);
            assert(n != "push"@);
        },
        GuidedCmd::Interval => {
            assert(n == "interval"@);
            assert(n != "sub"@);
            assert(n != "show"@);
            assert(n != "edit"@);
            assert(n != "del"@);
            assert(n != "push"@);
            assert(n != "rss"@);
        },
        GuidedCmd::SkipHalf => {
            assert(n == "skiphalf"@);
            assert(n != "sub"@);
            assert(n != "show"@);
            assert(n != "edit"@);
            assert(n != "del"@);
            assert(n != "push"@);
            assert(n != "rss"@);
            assert(n != "interval"@);
        },
        GuidedCmd::Gap => {
            assert(n == "gap"@);
            assert(n != "sub"@);
            assert(n != "show"@);
            assert(n != "edit"@);
            assert(n != "del"@);
            assert(n != "push"@);
            assert(n != "rss"@);
            assert(n != "interval"@);
            assert(n != "skiphalf"@);
        },
        GuidedCmd::Slack => {
            assert(n == "slack"@);
            assert(n != "sub"@);
            assert(n != "show"@);
            assert(n != "edit"@);
            assert(n != "del"@);
            assert(n != "push"@);
            assert(n != "rss"@);
            assert(n != "interval"@);
            assert(n != "skiphalf"@);
            assert(n != "gap"@);
        },
        GuidedCmd::AutoDisable => {
            assert(n == "autodisable"@);
            assert(n != "sub"@);
            assert(n != "show"@);
            assert(n != "edit"@);
            assert(n != "del"@);
            assert(n != "push"@);
            assert(n != "rss"@);
            assert(n != "interval"@);
            assert(n != "skiphalf"@);
            assert(n != "gap"@);
            assert(n != "slack"@);
        },
        GuidedCmd::Total => {
            assert(n == "total"@);
            assert(n != "sub"@);
            assert(n != "show"@);
            assert(n != "edit"@);
            assert(n != "del"@);
            assert(n != "push"@);
            assert(n != "rss"@);
            assert(n != "interval"@);
            assert(n != "skiphalf"@);
            assert(n != "gap"@);
            assert(n != "slack"@);
            assert(n != "autodisable"@);
        },
        GuidedCmd::Bgm => {
            assert(n == "bgm"@);
            assert(n != "sub"@);
            assert(n != "show"@);
            assert(n != "edit"@);
            assert(n != "del"@);
            assert(n != "push"@);
            assert(n != "rss"@);
            assert(n != "interval"@);
            assert(n != "skiphalf"@);
            assert(n != "gap"@);
            assert(n != "slack"@);
            assert(n != "autodisable"@);
            assert(n != "total"@);
        },
        GuidedCmd::Backup => {
            assert(n == "backup"@);
            assert(n != "sub"@);
            assert(n != "show"@);
            assert(n != "edit"@);
            assert(n != "del"@);
            assert(n != "push"@);
            assert(n != "rss"@);
            assert(n != "interval"@);
            assert(n != "skiphalf"@);
            assert(n != "gap"@);
            assert(n != "slack"@);
            assert(n != "autodisable"@);
            assert(n != "total"@);
            assert(n != "bgm"@);
        },
        GuidedCmd::RmBackup => {
            assert(n == "rmbackup"@);
            assert(n != "sub"@);
            assert(n != "show"@);
            assert(n != "edit"@);
            assert(n != "del"@);
            assert(n != "push"@);
            assert(n != "rss"@);
            assert(n != "interval"@);
            assert(n != "skiphalf"@);
            assert(n != "gap"@);
            assert(n != "slack"@);
            assert(n != "autodisable"@);
            assert(n != "total"@);
            assert(n != "bgm"@);
            assert(n != "backup"@);
        },
    }
}

/// Choosing a subscription from the picker shown for `show`, `edit`, `del`,
/// `push` or `rmbackup` sent without arguments runs that command on the
/// chosen subscription: the button's data leads to the picker's handler, and
/// what that handler reads from it (`r`) is the command with the
/// subscription's id as its argument.
pub proof fn law_picker_runs_command(g: GuidedCmd, s: SubRow, r: Option<MenuNext>)
    requires
        guide_of(g) == Guide::PickSubscription,
        !needs_value(g),
        spec_menu_next(spec_split_callback(subscription_button(g, s).1).1, r),
    ensures
        spec_route(spec_split_callback(subscription_button(g, s).1).0) == Route::Menu,
        r matches Some(MenuNext::Run(c, args)) && c@ == guided_name(g) && spec_command(c@, args.deep_view())
            == picked_command(g, s.id),
{
    reveal_strlit("menu:");
    reveal_strlit("menu");
    reveal_strlit(":");
    reveal_strlit("pick");
    reveal_strlit("pickall");
    reveal_strlit("skip");
    reveal_strlit("later");
    reveal_strlit("add");
    reveal_strlit("noadd");
    reveal_strlit("subc");
    reveal_strlit("sublang");
    reveal_strlit("edit");
    reveal_strlit("editlangsel");
    reveal_strlit("editlang");
    reveal_strlit("toggle");
    reveal_strlit("del");
    reveal_strlit("delc");
    assert("menu"@[0] != "pick"@[0] && "menu"@[0] != "skip"@[0] && "menu"@[0] != "subc"@[0] && "menu"@[0] != "edit"@[0]
        && "menu"@[0] != "delc"@[0]);
    assert("menu"@.len() == 4 && "pickall"@.len() == 7 && "later"@.len() == 5 && "add"@.len() == 3);
    assert("noadd"@.len() == 5 && "sublang"@.len() == 7 && "editlangsel"@.len() == 11 && "editlang"@.len() == 8);
    assert("toggle"@.len() == 6 && "del"@.len() == 3);
    lemma_command_words();
    let name = guided_name(g);
    let n = num(s.id);
    assert(forall|k: int| 0 <= k < name.len() ==> name[k] != ':') by {
        reveal_strlit("show");
        reveal_strlit("push");
        reveal_strlit("rmbackup");
    }
    let d = subscription_button(g, s).1;
    assert(d =~= "menu"@ + seq![':'] + (name + seq![':'] + n));
    lemma_split_first("menu"@, ':', name + seq![':'] + n);
    lemma_split_first(name, ':', n);
    lemma_no_colon_in_number(s.id);
    law_i64_round_trip(s.id);
    assert(arg_id(seq![n]) == s.id);
    reveal_strlit("all");
    lemma_int_text_chars(s.id as int);
    assert(n != "all"@) by {
        assert(n[0] != 'a');
    }
}

/// The "all" button shown for `push` sent without arguments polls every
/// subscription.
pub proof fn law_push_all_button(r: Option<MenuNext>)
    requires
        spec_menu_next(spec_split_callback("menu:push:all"@).1, r),
    ensures
        spec_route(spec_split_callback("menu:push:all"@).0) == Route::Menu,
        r matches Some(MenuNext::Run(c, args)) && c@ == "push"@ && spec_command(c@, args.deep_view())
            == CommandView::PushAll,
{
    reveal_strlit("menu:push:all");
    reveal_strlit("menu");
    reveal_strlit("push");
    reveal_strlit("all");
    reveal_strlit("pick");
    reveal_strlit("skip");
    reveal_strlit("subc");
    reveal_strlit("edit");
    reveal_strlit("delc");
    reveal_strlit("pickall");
    reveal_strlit("later");
    reveal_strlit("add");
    reveal_strlit("noadd");
    reveal_strlit("sublang");
    reveal_strlit("editlangsel");
    reveal_strlit("editlang");
    reveal_strlit("toggle");
    reveal_strlit("del");
    assert("menu"@[0] != "pick"@[0] && "menu"@[0] != "skip"@[0] && "menu"@[0] != "subc"@[0] && "menu"@[0] != "edit"@[0]
        && "menu"@[0] != "delc"@[0]);
    assert("menu"@.len() == 4 && "pickall"@.len() == 7 && "later"@.len() == 5 && "add"@.len() == 3);
    assert("noadd"@.len() == 5 && "sublang"@.len() == 7 && "editlangsel"@.len() == 11 && "editlang"@.len() == 8);
    assert("toggle"@.len() == 6 && "del"@.len() == 3);
    lemma_command_words();
    assert("menu:push:all"@ =~= "menu"@ + seq![':'] + ("push"@ + seq![':'] + "all"@));
    lemma_split_first("menu"@, ':', "push"@ + seq![':'] + "all"@);
    lemma_split_first("push"@, ':', "all"@);
}

/// A title whose text names a traditional-Chinese release (繁中, 繁體中文,
/// 繁體, 繁体中文, 繁体, 繁日, 繁中内嵌, 繁中外挂 or CHT) and names no bilingual
/// one (简繁, 双语, 简繁日, 中日双语, 简繁内封, 简繁外挂, 简繁内嵌) is read as
/// traditional Chinese.
pub proof fn law_traditional_keywords(s: Seq<char>)
    requires
        contains(s, "繁中"@) || contains(s, "繁體中文"@) || contains(s, "繁體"@) || contains(s, "繁体中文"@)
            || contains(s, "繁体"@) || contains(s, "繁日"@) || contains(s, "繁中内嵌"@) || contains(s, "繁中外挂"@)
            || contains(s, "CHT"@),
        !contains(s, "简繁"@),
        !contains(s, "双语"@),
        !contains(s, "简繁日"@),
        !contains(s, "中日双语"@),
        !contains(s, "简繁内封"@),
        !contains(s, "简繁外挂"@),
        !contains(s, "简繁内嵌"@),
    ensures
        spec_detect_lang(s) == Lang::Trad,
{
}

/// A title naming a bilingual release is read as bilingual, whatever else it
/// names.
pub proof fn law_bilingual_keywords(s: Seq<char>)
    requires
        contains(s, "简繁"@) || contains(s, "双语"@) || contains(s, "简繁日"@) || contains(s, "中日双语"@)
            || contains(s, "简繁内封"@) || contains(s, "简繁外挂"@) || contains(s, "简繁内嵌"@),
    ensures
        spec_detect_lang(s) == Lang::Bilingual,
{
}

/// A title naming a simplified-Chinese release (简中, 简体中文, 简体, 简日,
/// 简中内嵌, 简中内挂, 简中外挂, 中文字幕, 中文, 国语 or CHS) and no bilingual or
/// traditional one is read as simplified Chinese; a title naming none of
/// them has no known language.
pub proof fn law_simplified_keywords(s: Seq<char>)
    requires
        !contains(s, "简繁"@),
        !contains(s, "双语"@),
        !contains(s, "简繁日"@),
        !contains(s, "中日双语"@),
        !contains(s, "简繁内封"@),
        !contains(s, "简繁外挂"@),
        !contains(s, "简繁内嵌"@),
        !contains(s, "繁中"@),
        !contains(s, "繁體中文"@),
        !contains(s, "繁體"@),
        !contains(s, "繁体中文"@),
        !contains(s, "繁体"@),
        !contains(s, "繁日"@),
        !contains(s, "繁中内嵌"@),
        !contains(s, "繁中外挂"@),
        !contains(s, "CHT"@),
    ensures
        (contains(s, "简中"@) || contains(s, "简体中文"@) || contains(s, "简体"@) || contains(s, "简日"@)
            || contains(s, "简中内嵌"@) || contains(s, "简中内挂"@) || contains(s, "简中外挂"@) || contains(s, "中文字幕"@)
            || contains(s, "中文"@) || contains(s, "国语"@) || contains(s, "CHS"@)) <==> spec_detect_lang(s) == Lang::Simp,
        spec_detect_lang(s) == Lang::Simp || spec_detect_lang(s) == Lang::Unknown,
{
}

/// The language of a parsed title is the one the rest of the title (after
/// the fansub) names.
pub proof fn law_title_language(raw: Seq<char>)
    ensures
        spec_parse_title(raw).lang == spec_detect_lang(spec_fansub_rest(trim(raw)).1),
{
}

/// A keyword list is hit as soon as any one of its comma-separated pieces,
/// trimmed and lowercased, is non-empty and occurs in the text, wherever the
/// piece stands in the list.
pub proof fn law_any_piece_hits(text: Seq<char>, list: Seq<char>, k: int)
    requires
        0 <= k < split(list, ',').len(),
        spec_lowercase(trim(split(list, ',')[k])).len() > 0,
        contains(text, spec_lowercase(trim(split(list, ',')[k]))),
    ensures
        crate::filter::any_keyword_hits(text, list),
{
}

/// A title that some include piece occurs in (case-insensitively) and that
/// no exclude piece occurs in passes the keywords.
pub proof fn law_include_piece_passes(title: Seq<char>, include_kw: Seq<char>, exclude_kw: Seq<char>, k: int)
    requires
        0 <= k < split(include_kw, ',').len(),
        spec_lowercase(trim(split(include_kw, ',')[k])).len() > 0,
        contains(spec_lowercase(title), spec_lowercase(trim(split(include_kw, ',')[k]))),
        forall|j: int|
            0 <= j < split(exclude_kw, ',').len() ==> !(spec_lowercase(trim(#[trigger] split(exclude_kw, ',')[j])).len() > 0
                && contains(spec_lowercase(title), spec_lowercase(trim(split(exclude_kw, ',')[j])))),
    ensures
        spec_matches_keywords(title, include_kw, exclude_kw),
{
    law_any_piece_hits(spec_lowercase(title), include_kw, k);
}

/// A title that some exclude piece occurs in (case-insensitively) fails the
/// keywords.
pub proof fn law_exclude_piece_rejects(title: Seq<char>, include_kw: Seq<char>, exclude_kw: Seq<char>, j: int)
    requires
        trim(exclude_kw).len() > 0,
        0 <= j < split(exclude_kw, ',').len(),
        spec_lowercase(trim(split(exclude_kw, ',')[j])).len() > 0,
        contains(spec_lowercase(title), spec_lowercase(trim(split(exclude_kw, ',')[j]))),
    ensures
        !spec_matches_keywords(title, include_kw, exclude_kw),
{
    law_any_piece_hits(spec_lowercase(title), exclude_kw, j);
}

/// With a non-blank include list, a title that no include piece occurs in
/// (case-insensitively) fails the keywords.
pub proof fn law_include_required(title: Seq<char>, include_kw: Seq<char>, exclude_kw: Seq<char>)
    requires
        trim(include_kw).len() > 0,
        forall|k: int|
            0 <= k < split(include_kw, ',').len() ==> !(spec_lowercase(trim(#[trigger] split(include_kw, ',')[k])).len() > 0
                && contains(spec_lowercase(title), spec_lowercase(trim(split(include_kw, ',')[k])))),
    ensures
        !spec_matches_keywords(title, include_kw, exclude_kw),
{
}

/// An item passes screening exactly when its title names an episode that
/// is no collection, no extra, no skipped half episode and not before the
/// subscription's start episode, and the title passes the subscription's own
/// include and exclude keywords.
pub proof fn law_screen_uses_keywords(sub: SubRow, title: Seq<char>, skip_half: bool)
    ensures
        spec_screen(sub, title, skip_half) <==> ({
            let p = spec_parse_title(title);
            &&& p.episode is Some
            &&& !p.is_collection
            &&& !p.is_special
            &&& !(p.is_half && skip_half)
            &&& p.episode->0 as i64 >= sub.start_episode
            &&& spec_matches_keywords(title, sub.include_kw@, sub.exclude_kw@)
        }),
{
}

/// An earlier push of the episode refuses an item only when it had both the
/// item's version and its language: admitting an item against the pushed
/// `(version, language)` pairs is admitting it against none, and finding no
/// pair with its version and language label among them.
pub proof fn law_admit_pushed_pairs(
    p: TitleView,
    magnet: Option<Seq<char>>,
    link_pushed: bool,
    pending: bool,
    magnet_pushed: bool,
    pushed: Seq<(i64, String)>,
)
    ensures
        spec_admit(p, magnet, link_pushed, pending, magnet_pushed, pushed) <==> (spec_admit(
            p,
            magnet,
            link_pushed,
            pending,
            magnet_pushed,
            seq![],
        ) && forall|k: int|
            0 <= k < pushed.len() ==> !((#[trigger] pushed[k]).0 == p.version as i64 && pushed[k].1@ == label_of(
                p.lang,
            ))),
{
}

/// With no pushed pairs, an item is admitted exactly when its link was not
/// pushed, its episode waits for no decision, a magnet link was had and that
/// magnet link was not pushed.
pub proof fn law_admit_without_pushes(
    p: TitleView,
    magnet: Option<Seq<char>>,
    link_pushed: bool,
    pending: bool,
    magnet_pushed: bool,
)
    ensures
        spec_admit(p, magnet, link_pushed, pending, magnet_pushed, seq![]) <==> (!link_pushed && !pending
            && magnet is Some && !magnet_pushed),
{
}

/// For one to ten missing episodes a notice is given exactly when the stored
/// signature is not the missing episodes (two digits each) joined with
/// commas, and the notice is that signature.
pub proof fn law_gap_notice_due(missing: Seq<i64>, notified: Option<Seq<char>>)
    requires
        1 <= missing.len() <= 10,
    ensures
        notified != Some(gap_signature(missing)) <==> spec_gap_notice(missing, notified) is Some,
        spec_gap_notice(missing, notified) is Some ==> spec_gap_notice(missing, notified) == Some(
            gap_signature(missing),
        ),
{
}

/// No notice is given for no missing episodes or more than ten.
pub proof fn law_gap_notice_range(missing: Seq<i64>, notified: Option<Seq<char>>)
    requires
        missing.len() == 0 || missing.len() > 10,
    ensures
        spec_gap_notice(missing, notified) is None,
{
}

/// The signature of missing episodes is their two-digit forms joined with
/// commas: one episode alone, and each further episode after a comma.
pub proof fn law_gap_signature_shape(missing: Seq<i64>, e: i64)
    ensures
        gap_signature(seq![e]) == pad2((e as u32) as int),
        missing.len() > 0 ==> gap_signature(missing.push(e)) == gap_signature(missing) + ","@ + pad2(
            (e as u32) as int,
        ),
{
    let f = |x: i64| pad2((x as u32) as int);
    assert(seq![e].map_values(f) =~= seq![f(e)]);
    if missing.len() > 0 {
        let ps = missing.push(e).map_values(f);
        assert(ps.drop_last() =~= missing.map_values(f));
        assert(ps.last() == f(e));
    }
}

/// After one set of missing episodes was reported, another set whose
/// signature differs is reported too.
pub proof fn law_new_gap_reported(reported: Seq<char>, missing: Seq<i64>)
    requires
        1 <= missing.len() <= 10,
        gap_signature(missing) != reported,
    ensures
        spec_gap_notice(missing, Some(reported)) == Some(gap_signature(missing)),
{
}

} // verus!
