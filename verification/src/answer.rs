//! The administrator's answers to the questions about conflicting
//! candidates: the data of the pressed button taken apart, and what each
//! answer does (what is remembered, what is pushed, what is replied).
use vstd::prelude::*;
use crate::models::Candidate;
use crate::notifier::{escape, join};
use crate::num::{decimal_chars, i64_text, int_text, pad2, parse_i64_spec, parse_unsigned, parse_i64_chars, parse_unsigned_chars, opt_i64_int, opt_u64_int};
use crate::models::fmt_episode;
use crate::scheduler::{attr_parts, clone_candidate, confirm_message, learn_lang, spec_learn_lang};
use crate::text::{after_char, before_char, chars_of, push_str, split_once_char, string_of};
use crate::notifier::push_chars;

verus! {

/// The answers a question offers.
#[derive(Debug, Clone, Copy, PartialEq, Eq, Structural)]
pub enum Answer {
    /// Push the chosen fresh candidate.
    Pick,
    /// Push every candidate.
    PickAll,
    /// Push none, and remember that.
    Skip,
    /// Ask again at the next poll.
    Later,
    /// Add the chosen new version.
    Add,
    /// Add none, and remember that.
    NoAdd,
    /// Data that names no answer.
    Other,
}

/// The answer that a command word names.
pub open spec fn answer_of(cmd: Seq<char>) -> Answer {
    if cmd == "pick"@ {
        Answer::Pick
    } else if cmd == "pickall"@ {
        Answer::PickAll
    } else if cmd == "skip"@ {
        Answer::Skip
    } else if cmd == "later"@ {
        Answer::Later
    } else if cmd == "add"@ {
        Answer::Add
    } else if cmd == "noadd"@ {
        Answer::NoAdd
    } else {
        Answer::Other
    }
}

/// Button data split at its first two colons, as `splitn(3, ':')` does:
/// the command, then the pending question's id, then the rest.
pub open spec fn data_parts(data: Seq<char>) -> (Seq<char>, Option<Seq<char>>, Option<Seq<char>>) {
    let rest = after_char(data, ':');
    (
        before_char(data, ':'),
        match rest {
            Some(r) => Some(before_char(r, ':')),
            None => None,
        },
        match rest {
            Some(r) => after_char(r, ':'),
            None => None,
        },
    )
}

/// An answer as read from button data.
#[derive(Debug, Clone, Copy, PartialEq, Eq, Structural)]
pub struct AnswerRequest {
    pub answer: Answer,
    /// The id of the pending question.
    pub pending_id: i64,
    /// The chosen candidate's position, when the data holds a valid one.
    pub index: Option<usize>,
}

/// The answer that button data holds: none when the question's id is
/// missing or not a number.
pub open spec fn spec_parse_answer(data: Seq<char>) -> Option<AnswerRequest> {
    let (cmd, pid, idx) = data_parts(data);
    match pid {
        Some(p) => match parse_i64_spec(p) {
            Some(id) => Some(
                AnswerRequest {
                    answer: answer_of(cmd),
                    pending_id: id as i64,
                    index: match idx {
                        Some(i) => match parse_unsigned(i, usize::MAX as nat) {
                            Some(v) => Some(v as usize),
                            None => None,
                        },
                        None => None,
                    },
                },
            ),
            None => None,
        },
        None => None,
    }
}

fn answer_word(cmd: &[char]) -> (r: Answer)
    ensures
        r == answer_of(cmd@),
{
    let s = string_of(cmd);
    let t = s.as_str();
    if crate::text::str_eq(t, "pick") {
        Answer::Pick
    } else if crate::text::str_eq(t, "pickall") {
        Answer::PickAll
    } else if crate::text::str_eq(t, "skip") {
        Answer::Skip
    } else if crate::text::str_eq(t, "later") {
        Answer::Later
    } else if crate::text::str_eq(t, "add") {
        Answer::Add
    } else if crate::text::str_eq(t, "noadd") {
        Answer::NoAdd
    } else {
        Answer::Other
    }
}

/// Reads the answer from the data of a pressed button.
pub fn parse_answer(data: &str) -> (r: Option<AnswerRequest>)
    ensures
        r == spec_parse_answer(data@),
{
    let d = chars_of(data);
    let (cmd, rest) = split_once_char(d.as_slice(), ':');
    let rest = match rest {
        Some(r) => r,
        None => {
            assert(after_char(data@, ':') is None);
            return None;
        },
    };
    assert(after_char(data@, ':') == Some(rest@));
    let (pid, idx) = split_once_char(rest.as_slice(), ':');
    let id = match parse_i64_chars(pid.as_slice()) {
        Some(v) => v,
        None => {
            assert(parse_i64_spec(pid@) is None);
            return None;
        },
    };
    assert(parse_i64_spec(pid@) == Some(id as int));
    let index: Option<usize> = match idx {
        Some(i) => {
            assert(after_char(rest@, ':') == Some(i@));
            match parse_unsigned_chars(i.as_slice(), usize::MAX as u64) {
                Some(v) => {
                    assert(parse_unsigned(i@, usize::MAX as nat) == Some(v as nat));
                    Some(v as usize)
                },
                None => {
                    assert(parse_unsigned(i@, usize::MAX as nat) is None);
                    None
                },
            }
        },
        None => {
            assert(after_char(rest@, ':') is None);
            None
        },
    };
    Some(AnswerRequest { answer: answer_word(cmd.as_slice()), pending_id: id, index })
}

/// Why a chosen candidate cannot be had.
#[derive(Debug, Clone, Copy, PartialEq, Eq, Structural)]
pub enum AnswerError {
    /// The data names no valid position.
    BadIndex,
    /// The position is past the last candidate.
    OutOfRange,
}

/// What an answer does, in order: remember a choice for the episode, teach
/// the subscription a language, drop the pending question, push candidates,
/// then reply to the administrator.
#[derive(Debug)]
pub struct AnswerPlan {
    /// The choice remembered for the episode: a language and a version, or
    /// the empty language and no version for "none of them".
    pub remember: Option<(String, Option<i64>)>,
    /// The language the subscription learns.
    pub learn: Option<String>,
    /// Whether the pending question is dropped.
    pub drop_pending: bool,
    /// The candidates to push.
    pub push: Vec<Candidate>,
    /// The reply.
    pub reply: Option<String>,
}

/// An answer's effects as values.
pub struct PlanView {
    pub remember: Option<(Seq<char>, Option<i64>)>,
    pub learn: Option<Seq<char>>,
    pub drop_pending: bool,
    pub push: Seq<Candidate>,
    pub reply: Option<Seq<char>>,
}

impl View for AnswerPlan {
    type V = PlanView;

    open spec fn view(&self) -> PlanView {
        PlanView {
            remember: match self.remember {
                Some((l, v)) => Some((l@, v)),
                None => None,
            },
            learn: match self.learn {
                Some(l) => Some(l@),
                None => None,
            },
            drop_pending: self.drop_pending,
            push: self.push@,
            reply: match self.reply {
                Some(m) => Some(m@),
                None => None,
            },
        }
    }
}

/// The confirmation text after a chosen candidate was pushed.
pub open spec fn confirm_text(verb: Seq<char>, title: Seq<char>, c: Candidate) -> Seq<char> {
    "✅ "@ + verb + " "@ + escape(title) + " 第"@ + pad2(c.episode as int) + "话 ("@ + join(attr_parts(c), " · "@)
        + ")"@
}

/// Pushing one chosen candidate: remember its language and version, learn
/// its language where `learn` allows, push it, confirm with `verb`.
pub open spec fn chosen_plan(c: Candidate, learn: bool, lang_pref: Seq<char>, verb: Seq<char>, title: Seq<char>) -> PlanView {
    PlanView {
        remember: Some((c.lang@, Some(c.version as i64))),
        learn: if learn && spec_learn_lang(c.lang@, lang_pref) {
            Some(c.lang@)
        } else {
            None
        },
        drop_pending: true,
        push: seq![c],
        reply: Some(confirm_text(verb, title, c)),
    }
}

/// A plan that pushes nothing.
pub open spec fn quiet_plan(remember: bool, reply: Option<Seq<char>>) -> PlanView {
    PlanView {
        remember: if remember {
            Some((Seq::empty(), None))
        } else {
            None
        },
        learn: None,
        drop_pending: true,
        push: seq![],
        reply,
    }
}

/// The chosen candidate: an error when no valid position was given or the
/// position is past the last candidate.
pub open spec fn chosen(cands: Seq<Candidate>, index: Option<usize>) -> Result<Candidate, AnswerError> {
    match index {
        None => Err(AnswerError::BadIndex),
        Some(i) => if i < cands.len() {
            Ok(cands[i as int])
        } else {
            Err(AnswerError::OutOfRange)
        },
    }
}

/// What an answer does to the episode `ep` of the subscription `title`
/// (whose language preference is `lang_pref`), given the question's candidates.
pub open spec fn spec_plan_answer(
    answer: Answer,
    index: Option<usize>,
    cands: Seq<Candidate>,
    title: Seq<char>,
    lang_pref: Seq<char>,
    ep: u32,
) -> Result<PlanView, AnswerError> {
    match answer {
        Answer::Pick => match chosen(cands, index) {
            Ok(c) => Ok(chosen_plan(c, true, lang_pref, "已推送"@, title)),
            Err(e) => Err(e),
        },
        Answer::Add => match chosen(cands, index) {
            Ok(c) => Ok(chosen_plan(c, false, lang_pref, "已追加"@, title)),
            Err(e) => Err(e),
        },
        Answer::PickAll => Ok(
            PlanView {
                remember: None,
                learn: None,
                drop_pending: true,
                push: cands,
                reply: Some(
                    "✅ 已全部推送 "@ + title + " 第"@ + pad2(ep as int) + "话 ("@ + int_text(cands.len() as int) + " 个)"@,
                ),
            },
        ),
        Answer::Skip => Ok(quiet_plan(true, Some("⏭️ 已跳过 "@ + title + " 第"@ + pad2(ep as int) + "话"@))),
        Answer::Later => Ok(quiet_plan(false, Some("⏳ 下次拉取会再问"@))),
        Answer::NoAdd => Ok(
            quiet_plan(true, Some("🚫 已忽略 "@ + title + " 第"@ + pad2(ep as int) + "话的新版本"@)),
        ),
        Answer::Other => Ok(
            PlanView { remember: None, learn: None, drop_pending: false, push: seq![], reply: None },
        ),
    }
}

pub open spec fn plan_result_view(r: Result<AnswerPlan, AnswerError>) -> Result<PlanView, AnswerError> {
    match r {
        Ok(p) => Ok(p@),
        Err(e) => Err(e),
    }
}

fn chosen_of(cands: &[Candidate], index: Option<usize>) -> (r: Result<Candidate, AnswerError>)
    ensures
        r == chosen(cands@, index),
{
    match index {
        None => Err(AnswerError::BadIndex),
        Some(i) => if i < cands.len() {
            Ok(clone_candidate(&cands[i]))
        } else {
            Err(AnswerError::OutOfRange)
        },
    }
}

fn chosen_plan_of(c: Candidate, learn: bool, lang_pref: &str, verb: &str, title: &str) -> (r: AnswerPlan)
    ensures
        r@ == chosen_plan(c, learn, lang_pref@, verb@, title@),
{
    let reply = confirm_message(verb, title, &c);
    let learned = if learn && learn_lang(c.lang.as_str(), lang_pref) {
        Some(c.lang.clone())
    } else {
        None
    };
    let remember = Some((c.lang.clone(), Some(c.version as i64)));
    let mut push: Vec<Candidate> = Vec::new();
    push.push(c);
    AnswerPlan { remember, learn: learned, drop_pending: true, push, reply: Some(reply) }
}

fn quiet_plan_of(remember: bool, reply: Option<String>) -> (r: AnswerPlan)
    ensures
        r@ == quiet_plan(
            remember,
            match reply {
                Some(m) => Some(m@),
                None => None,
            },
        ),
{
    let rem = if remember {
        Some((String::new(), None))
    } else {
        None
    };
    AnswerPlan { remember: rem, learn: None, drop_pending: true, push: Vec::new(), reply }
}

/// `<head><title> 第<ep>话<tail>`, the title left as it is.
fn episode_note(head: &str, title: &str, ep: u32, tail: &str) -> (r: String)
    ensures
        r@ == head@ + title@ + " 第"@ + pad2(ep as int) + tail@,
{
    let mut m = String::new();
    push_str(&mut m, head);
    push_str(&mut m, title);
    push_str(&mut m, " 第");
    push_str(&mut m, fmt_episode(ep).as_str());
    push_str(&mut m, tail);
    m
}

/// What an answer does.
pub fn plan_answer(
    answer: Answer,
    index: Option<usize>,
    cands: &[Candidate],
    title: &str,
    lang_pref: &str,
    ep: u32,
) -> (r: Result<AnswerPlan, AnswerError>)
    ensures
        plan_result_view(r) == spec_plan_answer(answer, index, cands@, title@, lang_pref@, ep),
{
    match answer {
        Answer::Pick => match chosen_of(cands, index) {
            Ok(c) => Ok(chosen_plan_of(c, true, lang_pref, "已推送", title)),
            Err(e) => Err(e),
        },
        Answer::Add => match chosen_of(cands, index) {
            Ok(c) => Ok(chosen_plan_of(c, false, lang_pref, "已追加", title)),
            Err(e) => Err(e),
        },
        Answer::PickAll => {
            let mut push: Vec<Candidate> = Vec::new();
            let mut k: usize = 0;
            while k < cands.len()
                invariant
                    k <= cands.len(),
                    push@ == cands@.take(k as int),
                decreases cands.len() - k,
            {
                push.push(clone_candidate(&cands[k]));
                k = k + 1;
                assert(push@ =~= cands@.take(k as int));
            }
            assert(cands@.take(k as int) =~= cands@);
            let mut m = episode_note("✅ 已全部推送 ", title, ep, "话 (");
            push_chars(&mut m, decimal_chars(cands.len() as u64).as_slice());
            push_str(&mut m, " 个)");
            Ok(AnswerPlan { remember: None, learn: None, drop_pending: true, push, reply: Some(m) })
        },
        Answer::Skip => Ok(quiet_plan_of(true, Some(episode_note("⏭️ 已跳过 ", title, ep, "话")))),
        Answer::Later => {
            let mut m = String::new();
            push_str(&mut m, "⏳ 下次拉取会再问");
            Ok(quiet_plan_of(false, Some(m)))
        },
        Answer::NoAdd => Ok(quiet_plan_of(true, Some(episode_note("🚫 已忽略 ", title, ep, "话的新版本")))),
        Answer::Other => Ok(AnswerPlan { remember: None, learn: None, drop_pending: false, push: Vec::new(), reply: None }),
    }
}

} // verus!
