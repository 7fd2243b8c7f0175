//! The decisions of the polling cycle: which feed items become candidates,
//! how candidates are grouped by episode, whether a group is pushed, asked
//! about or skipped, and the checks after each subscription (automatic
//! disabling, missing episodes, stalled releases).
use vstd::prelude::*;
use crate::filter::{filter_by_lang, lang_target, spec_filter_by_lang};
use crate::models::{Candidate, Lang, ParsedTitle, RssItem, SubRow, TitleView, label_of};
use crate::filter::{matches_keywords, spec_matches_keywords};
use crate::parser::{parse_title, spec_parse_title};
use crate::notifier::{candidate_line, opt_part, lang_part, push_opt, push_part, spec_candidate_line, version_chars, version_text};
use crate::models::fmt_episode;
use crate::notifier::{escape, html_escape, join, join_chars, push_chars};
use crate::num::{decimal, decimal_chars, i64_text, int_text, pad2};
use crate::text::{chars_of, push_str, str_eq};

verus! {

/// A copy of a candidate.
pub fn clone_candidate(c: &Candidate) -> (r: Candidate)
    ensures
        r == *c,
{
    Candidate {
        title: c.title.clone(),
        magnet: c.magnet.clone(),
        fansub: c.fansub.clone(),
        episode: c.episode,
        version: c.version,
        lang: c.lang.clone(),
        quality: c.quality.clone(),
        codec: c.codec.clone(),
        source: c.source.clone(),
        link: c.link.clone(),
    }
}

/// What to do with the fresh candidates of one episode.
#[derive(Debug)]
pub enum Decision {
    /// Push these candidates.
    Push(Vec<Candidate>),
    /// Ask the administrator which to push.
    Ask,
    /// Push nothing.
    Skip,
}

/// The decision as values.
pub enum DecisionView {
    Push(Seq<Candidate>),
    Ask,
    Skip,
}

impl View for Decision {
    type V = DecisionView;

    open spec fn view(&self) -> DecisionView {
        match self {
            Decision::Push(v) => DecisionView::Push(v@),
            Decision::Ask => DecisionView::Ask,
            Decision::Skip => DecisionView::Skip,
        }
    }
}

/// The first position whose candidate has version `v`.
pub open spec fn first_with_version(c: Seq<Candidate>, v: i64) -> Option<int>
    decreases c.len(),
{
    if c.len() == 0 {
        None
    } else {
        match first_with_version(c.drop_last(), v) {
            Some(i) => Some(i),
            None => if c.last().version as i64 == v {
                Some(c.len() - 1)
            } else {
                None
            },
        }
    }
}

/// Among the positions `idxs` (not empty), the last one with the highest
/// version (as `Iterator::max_by_key` picks).
pub open spec fn best_version(c: Seq<Candidate>, idxs: Seq<usize>) -> usize
    decreases idxs.len(),
{
    if idxs.len() <= 1 {
        idxs[0]
    } else {
        let b = best_version(c, idxs.drop_last());
        if c[idxs.last() as int].version >= c[b as int].version {
            idxs.last()
        } else {
            b
        }
    }
}

/// The decision for the fresh candidates of an episode:
/// 1. a remembered choice for the episode wins: its version if offered, else
///    the highest version in its language, else nothing; a remembered
///    "ignore" (no version) skips;
/// 2. a subscription that prefers one language pushes the one candidate of
///    that language, skips when there is none and asks when there are several;
/// 3. otherwise one candidate is pushed and several are asked about.
pub open spec fn spec_decide_fresh(
    pref: Option<(Seq<char>, Option<i64>)>,
    lang_pref: Seq<char>,
    c: Seq<Candidate>,
) -> DecisionView {
    match pref {
        Some((lang, Some(v))) => match first_with_version(c, v) {
            Some(i) => DecisionView::Push(seq![c[i]]),
            None => {
                let idxs = spec_filter_by_lang(c, lang);
                if idxs.len() > 0 {
                    DecisionView::Push(seq![c[best_version(c, idxs) as int]])
                } else {
                    DecisionView::Skip
                }
            },
        },
        Some((_, None)) => DecisionView::Skip,
        None => if lang_target(lang_pref) is Some {
            let idxs = spec_filter_by_lang(c, lang_pref);
            if idxs.len() == 0 {
                DecisionView::Skip
            } else if idxs.len() == 1 {
                DecisionView::Push(seq![c[idxs[0] as int]])
            } else {
                DecisionView::Ask
            }
        } else if c.len() == 1 {
            DecisionView::Push(seq![c[0]])
        } else {
            DecisionView::Ask
        },
    }
}

/// The remembered choice as values.
pub open spec fn pref_view(pref: Option<(String, Option<i64>)>) -> Option<(Seq<char>, Option<i64>)> {
    match pref {
        Some((l, v)) => Some((l@, v)),
        None => None,
    }
}

pub proof fn lemma_first_with_version(c: Seq<Candidate>, v: i64, k: int)
    requires
        0 <= k <= c.len(),
    ensures
        first_with_version(c.take(k), v) matches Some(i) ==> 0 <= i < k && c[i].version as i64 == v,
        first_with_version(c.take(k), v) is None ==> forall|j: int| 0 <= j < k ==> c[j].version as i64 != v,
    decreases k,
{
    if k > 0 {
        assert(c.take(k).drop_last() =~= c.take(k - 1));
        lemma_first_with_version(c, v, k - 1);
    }
}

/// Decides what to do with the fresh candidates of an episode, given the
/// remembered choice for the episode (`(language, version)`; no version means
/// "ignore this episode") and the subscription's language preference.
pub fn decide_fresh(pref: &Option<(String, Option<i64>)>, sub: &SubRow, cands: &[Candidate]) -> (r: Decision)
    ensures
        r@ == spec_decide_fresh(pref_view(*pref), sub.lang_pref@, cands@),
{
    match pref {
        Some((lang, ver)) => {
            match ver {
                Some(v) => {
                    let mut i: usize = 0;
                    while i < cands.len()
                        invariant
                            i <= cands.len(),
                            pref_view(*pref) == Some((lang@, Some(*v))),
                            first_with_version(cands@.take(i as int), *v) is None,
                        decreases cands.len() - i,
                    {
                        proof {
                            assert(cands@.take(i + 1).drop_last() =~= cands@.take(i as int));
                        }
                        if cands[i].version as i64 == *v {
                            proof {
                                lemma_first_with_version(cands@, *v, cands.len() as int);
                                lemma_first_with_prefix(cands@, *v, i as int + 1);
                            }
                            let mut out: Vec<Candidate> = Vec::new();
                            out.push(clone_candidate(&cands[i]));
                            assert(out@ =~= seq![cands@[i as int]]);
                            return Decision::Push(out);
                        }
                        i = i + 1;
                    }
                    assert(cands@.take(i as int) =~= cands@);
                    let idxs = filter_by_lang(cands, lang.as_str());
                    proof {
                        crate::filter::lemma_filter_by_lang_sound(cands@, lang@);
                    }
                    if idxs.len() > 0 {
                        let mut b: usize = idxs[0];
                        let mut k: usize = 1;
                        assert(idxs@.take(1).drop_last().len() == 0);
                        while k < idxs.len()
                            invariant
                                1 <= k <= idxs.len(),
                                idxs@ == spec_filter_by_lang(cands@, lang@),
                                forall|j: int| 0 <= j < idxs.len() ==> (#[trigger] idxs@[j]) < cands.len(),
                                b == best_version(cands@, idxs@.take(k as int)),
                                b < cands.len(),
                            decreases idxs.len() - k,
                        {
                            assert(idxs@.take(k + 1).drop_last() =~= idxs@.take(k as int));
                            let j = idxs[k];
                            if cands[j].version >= cands[b].version {
                                b = j;
                            }
                            k = k + 1;
                        }
                        assert(idxs@.take(k as int) =~= idxs@);
                        let mut out: Vec<Candidate> = Vec::new();
                        out.push(clone_candidate(&cands[b]));
                        assert(out@ =~= seq![cands@[b as int]]);
                        Decision::Push(out)
                    } else {
                        Decision::Skip
                    }
                },
                None => Decision::Skip,
            }
        },
        None => {
            let n = cands.len();
            assert(cands@.len() == n);
            let lp = sub.lang_pref.as_str();
            if str_eq(lp, "简中") || str_eq(lp, "繁中") || str_eq(lp, "简繁") {
                let idxs = filter_by_lang(cands, lp);
                proof {
                    crate::filter::lemma_filter_by_lang_sound(cands@, lp@);
                }
                if idxs.len() == 0 {
                    return Decision::Skip;
                }
                if idxs.len() == 1 {
                    let mut out: Vec<Candidate> = Vec::new();
                    out.push(clone_candidate(&cands[idxs[0]]));
                    assert(out@ =~= seq![cands@[idxs@[0] as int]]);
                    return Decision::Push(out);
                }
                Decision::Ask
            } else {
                if cands.len() == 1 {
                    let mut out: Vec<Candidate> = Vec::new();
                    out.push(clone_candidate(&cands[0]));
                    assert(out@ =~= seq![cands@[0]]);
                    return Decision::Push(out);
                }
                Decision::Ask
            }
        },
    }
}

proof fn lemma_first_with_prefix(c: Seq<Candidate>, v: i64, k: int)
    requires
        0 < k <= c.len(),
        first_with_version(c.take(k - 1), v) is None,
        c[k - 1].version as i64 == v,
    ensures
        first_with_version(c, v) == Some(k - 1),
    decreases c.len() - k,
{
    assert(c.take(k).drop_last() =~= c.take(k - 1));
    assert(first_with_version(c.take(k), v) == Some(k - 1));
    if k < c.len() {
        lemma_first_with_extend(c, v, k);
    } else {
        assert(c.take(k) =~= c);
    }
}

proof fn lemma_first_with_extend(c: Seq<Candidate>, v: i64, k: int)
    requires
        0 < k <= c.len(),
        first_with_version(c.take(k), v) is Some,
    ensures
        first_with_version(c, v) == first_with_version(c.take(k), v),
    decreases c.len() - k,
{
    if k < c.len() {
        assert(c.take(k + 1).drop_last() =~= c.take(k));
        lemma_first_with_extend(c, v, k + 1);
    } else {
        assert(c.take(k) =~= c);
    }
}


/// The candidates of episode `e`, in their order.
pub open spec fn with_episode(c: Seq<Candidate>, e: u32) -> Seq<Candidate>
    decreases c.len(),
{
    if c.len() == 0 {
        seq![]
    } else {
        let r = with_episode(c.drop_last(), e);
        if c.last().episode == e {
            r.push(c.last())
        } else {
            r
        }
    }
}

/// Some candidate is of episode `e`.
pub open spec fn has_episode(c: Seq<Candidate>, e: u32) -> bool {
    exists|k: int| 0 <= k < c.len() && (#[trigger] c[k]).episode == e
}

/// `e` lies above `last` (everything does when there is no `last`).
pub open spec fn above(last: Option<u32>, e: u32) -> bool {
    match last {
        Some(l) => e > l,
        None => true,
    }
}

/// The groups are the episodes of the candidates, ascending, each with its
/// candidates in their order.
pub open spec fn grouped(c: Seq<Candidate>, g: Seq<(u32, Vec<Candidate>)>) -> bool {
    &&& forall|i: int, j: int| 0 <= i < j < g.len() ==> g[i].0 < g[j].0
    &&& forall|i: int| 0 <= i < g.len() ==> (#[trigger] g[i]).1@ == with_episode(c, g[i].0) && has_episode(c, g[i].0)
    &&& forall|k: int| 0 <= k < c.len() ==> exists|i: int| 0 <= i < g.len() && (#[trigger] g[i]).0 == (#[trigger] c[k]).episode
}

/// Groups candidates by episode, episodes ascending, each group keeping the
/// candidates' order.
pub fn group_by_episode(cands: &[Candidate]) -> (r: Vec<(u32, Vec<Candidate>)>)
    ensures
        grouped(cands@, r@),
{
    let n = cands.len();
    let mut out: Vec<(u32, Vec<Candidate>)> = Vec::new();
    let mut last: Option<u32> = None;
    loop
        invariant
            n == cands.len(),
            forall|i: int, j: int| 0 <= i < j < out@.len() ==> out@[i].0 < out@[j].0,
            forall|i: int|
                0 <= i < out@.len() ==> (#[trigger] out@[i]).1@ == with_episode(cands@, out@[i].0)
                    && has_episode(cands@, out@[i].0),
            last is None <==> out@.len() == 0,
            last matches Some(l) ==> l == out@.last().0,
            forall|k: int|
                0 <= k < cands@.len() && !above(last, (#[trigger] cands@[k]).episode) ==> exists|i: int|
                    0 <= i < out@.len() && (#[trigger] out@[i]).0 == cands@[k].episode,
        decreases (match last {
            Some(l) => u32::MAX - l,
            None => u32::MAX + 1,
        }),
    {
        let mut next: Option<u32> = None;
        let mut k: usize = 0;
        while k < n
            invariant
                n == cands.len(),
                k <= n,
                next is None ==> forall|j: int| 0 <= j < k ==> !above(last, (#[trigger] cands@[j]).episode),
                next matches Some(x) ==> {
                    &&& above(last, x)
                    &&& has_episode(cands@, x)
                    &&& forall|j: int| 0 <= j < k && above(last, (#[trigger] cands@[j]).episode) ==> x <= cands@[j].episode
                },
            decreases n - k,
        {
            let e = cands[k].episode;
            let ab = match last {
                Some(l) => e > l,
                None => true,
            };
            if ab {
                let smaller = match next {
                    Some(x) => e < x,
                    None => true,
                };
                if smaller {
                    next = Some(e);
                }
            }
            k = k + 1;
        }
        match next {
            None => {
                proof {
                    assert forall|k: int| 0 <= k < cands@.len() implies exists|i: int|
                        0 <= i < out@.len() && (#[trigger] out@[i]).0 == (#[trigger] cands@[k]).episode by {
                        assert(!above(last, cands@[k].episode));
                    }
                }
                return out;
            },
            Some(x) => {
                let mut group: Vec<Candidate> = Vec::new();
                let mut j: usize = 0;
                while j < n
                    invariant
                        n == cands.len(),
                        j <= n,
                        group@ == with_episode(cands@.take(j as int), x),
                    decreases n - j,
                {
                    proof {
                        assert(cands@.take(j + 1).drop_last() =~= cands@.take(j as int));
                    }
                    if cands[j].episode == x {
                        group.push(clone_candidate(&cands[j]));
                    }
                    j = j + 1;
                }
                assert(cands@.take(j as int) =~= cands@);
                let ghost prev = out@;
                let ghost prev_last = last;
                out.push((x, group));
                last = Some(x);
                proof {
                    assert(out@ == prev.push((x, group)));
                    assert forall|i: int, j: int| 0 <= i < j < out@.len() implies out@[i].0 < out@[j].0 by {
                        if j == out@.len() - 1 && i < prev.len() {
                            assert(prev[i].0 <= prev.last().0);
                        }
                    }
                    assert forall|k: int|
                        0 <= k < cands@.len() && !above(last, (#[trigger] cands@[k]).episode) implies exists|i: int|
                        0 <= i < out@.len() && (#[trigger] out@[i]).0 == cands@[k].episode by {
                        if !above(prev_last, cands@[k].episode) {
                            let i = choose|i: int| 0 <= i < prev.len() && (#[trigger] prev[i]).0 == cands@[k].episode;
                            assert(out@[i] == prev[i]);
                        } else {
                            assert(cands@[k].episode == x);
                            assert(out@[out@.len() - 1].0 == x);
                        }
                    }
                }
            },
        }
    }
}


/// The largest of the numbers (the first when `p` has one element).
pub open spec fn seq_max(p: Seq<i64>) -> i64
    decreases p.len(),
{
    if p.len() <= 1 {
        p[0]
    } else {
        let m = seq_max(p.drop_last());
        if p.last() > m {
            p.last()
        } else {
            m
        }
    }
}

/// The numbers from `lo` to `hi` that are not in `p`, ascending.
pub open spec fn missing_in(p: Seq<i64>, lo: int, hi: int) -> Seq<i64>
    decreases hi - lo + 1,
{
    if hi < lo {
        seq![]
    } else {
        missing_in(p, lo, hi - 1) + (if p.contains(hi as i64) {
            seq![]
        } else {
            seq![hi as i64]
        })
    }
}

/// The episodes missing from the pushed ones: from the subscription's start
/// episode (at least 1) up to the highest pushed episode.
pub open spec fn spec_missing_episodes(pushed: Seq<i64>, start_episode: i64) -> Seq<i64> {
    if pushed.len() == 0 {
        seq![]
    } else {
        missing_in(pushed, if start_episode > 1 { start_episode as int } else { 1 }, seq_max(pushed) as int)
    }
}

proof fn lemma_seq_max(p: Seq<i64>)
    requires
        p.len() > 0,
    ensures
        p.contains(seq_max(p)),
        forall|k: int| 0 <= k < p.len() ==> p[k] <= seq_max(p),
    decreases p.len(),
{
    if p.len() > 1 {
        lemma_seq_max(p.drop_last());
        assert forall|k: int| 0 <= k < p.len() implies p[k] <= seq_max(p) by {
            if k < p.len() - 1 {
                assert(p[k] == p.drop_last()[k]);
            }
        }
        if p.last() <= seq_max(p.drop_last()) {
            let i = choose|i: int| 0 <= i < p.drop_last().len() && p.drop_last()[i] == seq_max(p.drop_last());
            assert(p[i] == seq_max(p.drop_last()));
        } else {
            assert(p[p.len() - 1] == p.last());
        }
    } else {
        assert(p[0] == seq_max(p));
    }
}

fn contains_i64(p: &[i64], x: i64) -> (r: bool)
    ensures
        r == p@.contains(x),
{
    let mut k: usize = 0;
    while k < p.len()
        invariant
            k <= p.len(),
            forall|j: int| 0 <= j < k ==> p@[j] != x,
        decreases p.len() - k,
    {
        if p[k] == x {
            assert(p@[k as int] == x);
            return true;
        }
        k = k + 1;
    }
    false
}

/// The episodes missing between the start episode (at least 1) and the
/// highest pushed episode, ascending.
pub fn missing_episodes(pushed: &[i64], start_episode: i64) -> (r: Vec<i64>)
    ensures
        r@ == spec_missing_episodes(pushed@, start_episode),
{
    if pushed.len() == 0 {
        return Vec::new();
    }
    let start: i64 = if start_episode > 1 { start_episode } else { 1 };
    let mut max: i64 = pushed[0];
    let mut k: usize = 1;
    assert(pushed@.take(1) =~= seq![pushed@[0]]);
    while k < pushed.len()
        invariant
            1 <= k <= pushed.len(),
            max == seq_max(pushed@.take(k as int)),
        decreases pushed.len() - k,
    {
        assert(pushed@.take(k + 1).drop_last() =~= pushed@.take(k as int));
        if pushed[k] > max {
            max = pushed[k];
        }
        k = k + 1;
    }
    assert(pushed@.take(k as int) =~= pushed@);
    let mut out: Vec<i64> = Vec::new();
    if start > max {
        return out;
    }
    let mut e: i64 = start;
    loop
        invariant
            start <= e <= max,
            out@ == missing_in(pushed@, start as int, e - 1),
            max == seq_max(pushed@),
            pushed@.len() > 0,
            start == (if start_episode > 1 { start_episode } else { 1 }),
        decreases max - e,
    {
        let ghost before = out@;
        if !contains_i64(pushed, e) {
            out.push(e);
        }
        assert(out@ =~= before + (if pushed@.contains(e) { Seq::<i64>::empty() } else { seq![e] }));
        assert(out@ == missing_in(pushed@, start as int, e as int));
        if e == max {
            return out;
        }
        e = e + 1;
    }
}

/// A missing-episode notice is due when 1 to 10 episodes are missing (more
/// are taken for a mistake) and this set was not reported before; its
/// signature is the missing episodes joined with commas.
pub open spec fn gap_signature(missing: Seq<i64>) -> Seq<char> {
    join(missing.map_values(|e: i64| pad2((e as u32) as int)), ","@)
}

/// The missing episodes in the display format, joined with spaces.
pub open spec fn gap_list(missing: Seq<i64>) -> Seq<char> {
    join(missing.map_values(|e: i64| pad2((e as u32) as int)), " "@)
}

/// The signature of the missing episodes to report, if a report is due.
pub open spec fn spec_gap_notice(missing: Seq<i64>, notified: Option<Seq<char>>) -> Option<Seq<char>> {
    if 1 <= missing.len() <= 10 && notified != Some(gap_signature(missing)) {
        Some(gap_signature(missing))
    } else {
        None
    }
}

/// Episodes in the display format.
fn episode_texts(missing: &[i64]) -> (r: Vec<Vec<char>>)
    ensures
        r.deep_view() == missing@.map_values(|e: i64| pad2((e as u32) as int)),
{
    let mut out: Vec<Vec<char>> = Vec::new();
    let mut k: usize = 0;
    while k < missing.len()
        invariant
            k <= missing.len(),
            out.deep_view() == missing@.take(k as int).map_values(|e: i64| pad2((e as u32) as int)),
        decreases missing.len() - k,
    {
        let x = missing[k];
        let t = fmt_episode(#[verifier::truncate] (x as u32));
        let tv = chars_of(t.as_str());
        let ghost before = out.deep_view();
        assert(tv.deep_view() =~= tv@);
        assert(tv@ == pad2((x as u32) as int));
        out.push(tv);
        assert(out.deep_view() =~= before.push(tv@));
        assert(missing@.take(k + 1).map_values(|e: i64| pad2((e as u32) as int)) =~= missing@.take(
            k as int,
        ).map_values(|e: i64| pad2((e as u32) as int)).push(pad2((x as u32) as int)));
        k = k + 1;
    }
    assert(missing@.take(k as int) =~= missing@);
    out
}

/// Whether a missing-episode notice is due, and its signature.
pub fn gap_notice(missing: &[i64], notified: &Option<String>) -> (r: Option<String>)
    ensures
        r.deep_view() == spec_gap_notice(missing@, notified.deep_view()),
{
    if missing.len() < 1 || missing.len() > 10 {
        return None;
    }
    let texts = episode_texts(missing);
    let sig = join_chars(&texts, ",");
    let same = match notified {
        Some(n) => str_eq(n.as_str(), sig.as_str()),
        None => false,
    };
    if same {
        None
    } else {
        Some(sig)
    }
}

/// The missing-episode message.
pub open spec fn spec_gap_message(title: Seq<char>, missing: Seq<i64>, have_max: i64) -> Seq<char> {
    "🔍 <b>"@ + escape(title) + "</b> 遗漏检测: 第 "@ + gap_list(missing) + " 话尚未推送 (已推到 "@ + pad2(
        (have_max as u32) as int,
    ) + ")"@
}

/// The message that reports missing episodes.
pub fn gap_message(title: &str, missing: &[i64], have_max: i64) -> (r: String)
    ensures
        r@ == spec_gap_message(title@, missing@, have_max),
{
    let texts = episode_texts(missing);
    let list = join_chars(&texts, " ");
    let mut m = String::new();
    push_str(&mut m, "🔍 <b>");
    push_str(&mut m, html_escape(title).as_str());
    push_str(&mut m, "</b> 遗漏检测: 第 ");
    push_str(&mut m, list.as_str());
    push_str(&mut m, " 话尚未推送 (已推到 ");
    push_str(&mut m, fmt_episode(have_max as u32).as_str());
    push_str(&mut m, ")");
    m
}

/// A subscription is disabled automatically when that is switched on, its
/// total is known and positive, and that many episodes were pushed.
pub open spec fn spec_autodisable_due(on: bool, total: Option<i64>, pushed: i64) -> bool {
    &&& on
    &&& total matches Some(t) && t > 0 && pushed >= t
}

pub fn autodisable_due(on: bool, total: Option<i64>, pushed: i64) -> (r: bool)
    ensures
        r == spec_autodisable_due(on, total, pushed),
{
    on && match total {
        Some(t) => t > 0 && pushed >= t,
        None => false,
    }
}

/// The message after automatic disabling.
pub fn autodisable_message(title: &str, total: i64) -> (r: String)
    ensures
        r@ == "🏁 <b>"@ + escape(title@) + "</b> 全部 "@ + int_text(total as int) + " 集已推送，订阅已自动停用"@,
{
    let mut m = String::new();
    push_str(&mut m, "🏁 <b>");
    push_str(&mut m, html_escape(title).as_str());
    push_str(&mut m, "</b> 全部 ");
    push_chars(&mut m, i64_text(total).as_slice());
    push_str(&mut m, " 集已推送，订阅已自动停用");
    m
}

/// A stalled-release notice is due when the check is on (`slack_days > 0`),
/// something was pushed `since` days ago with `since >= slack_days`, and no
/// notice went out during the last day.
pub open spec fn spec_slack_due(slack_days: i64, since_push: Option<i64>, since_notice: Option<i64>) -> bool {
    &&& slack_days > 0
    &&& since_push matches Some(s) && s >= slack_days
    &&& !(since_notice matches Some(d) && d < 1)
}

pub fn slack_due(slack_days: i64, since_push: Option<i64>, since_notice: Option<i64>) -> (r: bool)
    ensures
        r == spec_slack_due(slack_days, since_push, since_notice),
{
    if slack_days <= 0 {
        return false;
    }
    let since = match since_push {
        Some(s) => s,
        None => return false,
    };
    let already = match since_notice {
        Some(d) => d < 1,
        None => false,
    };
    since >= slack_days && !already
}

/// The stalled-release message.
pub fn slack_message(title: &str, since: i64) -> (r: String)
    ensures
        r@ == "🥱 <b>"@ + escape(title@) + "</b> 已 "@ + int_text(since as int)
            + " 天没有更新，字幕组可能摸鱼了（建议检查 RSS / 开启自动停用）"@,
{
    let mut m = String::new();
    push_str(&mut m, "🥱 <b>");
    push_str(&mut m, html_escape(title).as_str());
    push_str(&mut m, "</b> 已 ");
    push_chars(&mut m, i64_text(since).as_slice());
    push_str(&mut m, " 天没有更新，字幕组可能摸鱼了（建议检查 RSS / 开启自动停用）");
    m
}


/// A feed item is screened out unless its title names an episode, is no
/// collection and no extra, is no half episode when those are skipped, is
/// not before the subscription's start episode, and passes the keywords.
pub open spec fn spec_screen(sub: SubRow, title: Seq<char>, skip_half: bool) -> bool {
    let p = spec_parse_title(title);
    &&& p.episode is Some
    &&& !p.is_collection
    &&& !p.is_special
    &&& !(p.is_half && skip_half)
    &&& p.episode->0 as i64 >= sub.start_episode
    &&& spec_matches_keywords(title, sub.include_kw@, sub.exclude_kw@)
}

/// Parses an item's title and applies the subscription's rules; the parsed
/// title when the item may become a candidate.
pub fn screen_item(sub: &SubRow, item: &RssItem, skip_half: bool) -> (r: Option<ParsedTitle>)
    ensures
        r is Some <==> spec_screen(*sub, item.title@, skip_half),
        r matches Some(p) ==> p@ == spec_parse_title(item.title@),
{
    let p = parse_title(item.title.as_str());
    let ep = match p.episode {
        Some(e) => e,
        None => return None,
    };
    if p.is_collection || p.is_special {
        return None;
    }
    if p.is_half && skip_half {
        return None;
    }
    if (ep as i64) < sub.start_episode {
        return None;
    }
    if !matches_keywords(item.title.as_str(), sub.include_kw.as_str(), sub.exclude_kw.as_str()) {
        return None;
    }
    Some(p)
}

/// `(version, language)` already pushed for the episode.
pub open spec fn version_pushed(pushed: Seq<(i64, String)>, version: u32, lang: Lang) -> bool {
    exists|k: int| 0 <= k < pushed.len() && (#[trigger] pushed[k]).0 == version as i64 && pushed[k].1@ == label_of(lang)
}

/// The candidate that an item with parsed title `p` and magnet link `m` gives.
pub open spec fn is_candidate_of(c: Candidate, item: RssItem, p: TitleView, m: Seq<char>) -> bool {
    &&& c.title@ == item.title@
    &&& c.magnet@ == m
    &&& c.fansub.deep_view() == p.fansub
    &&& p.episode == Some(c.episode)
    &&& c.version == p.version
    &&& c.lang@ == label_of(p.lang)
    &&& c.quality.deep_view() == p.quality
    &&& c.codec.deep_view() == p.codec
    &&& c.source.deep_view() == p.source
    &&& c.link@ == item.link@
}

/// A screened item becomes a candidate unless its link was pushed before,
/// its episode waits for a decision, no magnet link could be had, that
/// magnet link was pushed before, or the same version and language of the
/// episode was pushed before.
pub open spec fn spec_admit(
    p: TitleView,
    magnet: Option<Seq<char>>,
    link_pushed: bool,
    pending: bool,
    magnet_pushed: bool,
    pushed: Seq<(i64, String)>,
) -> bool {
    &&& !link_pushed
    &&& !pending
    &&& magnet is Some
    &&& !magnet_pushed
    &&& !version_pushed(pushed, p.version, p.lang)
}

/// Turns a screened item into a candidate, given what the store says of it:
/// whether its link was pushed, whether its episode waits for a decision,
/// its magnet link (if one could be had), whether that magnet link was
/// pushed, and the `(version, language)` pairs pushed for the episode.
pub fn admit_candidate(
    item: &RssItem,
    p: &ParsedTitle,
    link_pushed: bool,
    pending: bool,
    magnet: Option<String>,
    magnet_pushed: bool,
    pushed: &[(i64, String)],
) -> (r: Option<Candidate>)
    requires
        p.episode is Some,
    ensures
        r is Some <==> spec_admit(p@, magnet.deep_view(), link_pushed, pending, magnet_pushed, pushed@),
        r matches Some(c) ==> is_candidate_of(c, *item, p@, magnet.deep_view()->0),
{
    if link_pushed || pending {
        return None;
    }
    let m = match magnet {
        Some(m) => m,
        None => return None,
    };
    if magnet_pushed {
        return None;
    }
    let label = p.lang.label();
    let mut k: usize = 0;
    while k < pushed.len()
        invariant
            k <= pushed.len(),
            label@ == label_of(p.lang),
            forall|j: int|
                0 <= j < k ==> !((#[trigger] pushed@[j]).0 == p.version as i64 && pushed@[j].1@ == label_of(p.lang)),
        decreases pushed.len() - k,
    {
        if pushed[k].0 == p.version as i64 && str_eq(pushed[k].1.as_str(), label) {
            return None;
        }
        k = k + 1;
    }
    let ep = match p.episode {
        Some(e) => e,
        None => return None,
    };
    Some(Candidate {
        title: item.title.clone(),
        magnet: m,
        fansub: p.fansub.clone(),
        episode: ep,
        version: p.version,
        lang: label.to_owned(),
        quality: p.quality.clone(),
        codec: p.codec.clone(),
        source: p.source.clone(),
        link: item.link.clone(),
    })
}

/// What to do with the candidates of one episode.
#[derive(Debug, Clone, Copy, PartialEq, Eq, Structural)]
pub enum GroupAction {
    /// Leave them: the episode waits for a decision, or a decision about
    /// new versions of it was made.
    Skip,
    /// The episode was pushed before: ask whether to add these.
    AskUpdate,
    /// A fresh episode: decide with `decide_fresh`.
    Decide,
}

/// The action for an episode's candidates, given whether a decision is
/// pending for it, whether it was pushed before, and whether a choice for
/// it is remembered.
pub fn group_action(pending: bool, already_pushed: bool, has_pref: bool) -> (r: GroupAction)
    ensures
        r == (if pending {
            GroupAction::Skip
        } else if already_pushed {
            if has_pref {
                GroupAction::Skip
            } else {
                GroupAction::AskUpdate
            }
        } else {
            GroupAction::Decide
        }),
{
    if pending {
        GroupAction::Skip
    } else if already_pushed {
        if has_pref {
            GroupAction::Skip
        } else {
            GroupAction::AskUpdate
        }
    } else {
        GroupAction::Decide
    }
}

/// A choice teaches the subscription its language when the choice has a
/// known language and the subscription asks each time.
pub open spec fn spec_learn_lang(lang: Seq<char>, lang_pref: Seq<char>) -> bool {
    !(lang.len() == 0 || lang == "未知"@) && (lang_pref.len() == 0 || lang_pref == "ask"@)
}

pub fn learn_lang(lang: &str, lang_pref: &str) -> (r: bool)
    ensures
        r == spec_learn_lang(lang@, lang_pref@),
{
    if lang.is_empty() || str_eq(lang, "未知") {
        return false;
    }
    lang_pref.is_empty() || str_eq(lang_pref, "ask")
}

/// The attributes of a candidate in a confirmation: fansub, source,
/// quality, codec, language, and the version above 1.
pub open spec fn attr_parts(c: Candidate) -> Seq<Seq<char>> {
    opt_part(c.fansub) + opt_part(c.source) + opt_part(c.quality) + opt_part(c.codec) + lang_part(c) + (
    if c.version > 1 {
        seq![version_text(c.version)]
    } else {
        seq![]
    })
}

pub fn candidate_attrs(c: &Candidate) -> (r: String)
    ensures
        r@ == join(attr_parts(*c), " · "@),
{
    let mut parts: Vec<Vec<char>> = Vec::new();
    push_opt(&mut parts, &c.fansub);
    push_opt(&mut parts, &c.source);
    push_opt(&mut parts, &c.quality);
    push_opt(&mut parts, &c.codec);
    let ghost p4 = parts.deep_view();
    if !str_eq(c.lang.as_str(), "未知") {
        push_part(&mut parts, chars_of(c.lang.as_str()));
    }
    assert(parts.deep_view() =~= p4 + lang_part(*c));
    if c.version > 1 {
        push_part(&mut parts, version_chars(c.version));
    }
    assert(parts.deep_view() =~= attr_parts(*c));
    join_chars(&parts, " · ")
}

/// The confirmation after a chosen candidate was pushed.
pub fn confirm_message(verb: &str, title: &str, c: &Candidate) -> (r: String)
    ensures
        r@ == "✅ "@ + verb@ + " "@ + escape(title@) + " 第"@ + pad2(c.episode as int) + "话 ("@ + join(
            attr_parts(*c),
            " · "@,
        ) + ")"@,
{
    let mut m = String::new();
    push_str(&mut m, "✅ ");
    push_str(&mut m, verb);
    push_str(&mut m, " ");
    push_str(&mut m, html_escape(title).as_str());
    push_str(&mut m, " 第");
    push_str(&mut m, fmt_episode(c.episode).as_str());
    push_str(&mut m, "话 (");
    push_str(&mut m, candidate_attrs(c).as_str());
    push_str(&mut m, ")");
    m
}

/// Where a push goes.
#[derive(Debug, Clone, Copy, PartialEq, Eq, Structural)]
pub enum PushTarget {
    /// The bound channel.
    Channel(i64),
    /// No channel is bound: the administrator's chat, with a warning.
    Admin(i64),
    /// Neither is known: the magnet link is dropped.
    Nowhere,
}

/// The channel if one is bound, else the administrator.
pub fn push_target(channel: Option<i64>, admin: Option<i64>) -> (r: PushTarget)
    ensures
        r == match channel {
            Some(ch) => PushTarget::Channel(ch),
            None => match admin {
                Some(a) => PushTarget::Admin(a),
                None => PushTarget::Nowhere,
            },
        },
{
    match channel {
        Some(ch) => PushTarget::Channel(ch),
        None => match admin {
            Some(a) => PushTarget::Admin(a),
            None => PushTarget::Nowhere,
        },
    }
}

/// A push sent to the administrator because no channel is bound.
pub fn admin_push_message(msg: &str) -> (r: String)
    ensures
        r@ == "⚠️ 未绑定频道，磁力发到管理员会话\n\n"@ + msg@,
{
    let mut m = String::new();
    push_str(&mut m, "⚠️ 未绑定频道，磁力发到管理员会话\n\n");
    push_str(&mut m, msg);
    m
}

/// The message when fetching a subscription failed.
pub fn error_message(title: &str, err: &str) -> (r: String)
    ensures
        r@ == "⚠️ <b>"@ + escape(title@) + "</b> 拉取失败: "@ + escape(err@),
{
    let mut m = String::new();
    push_str(&mut m, "⚠️ <b>");
    push_str(&mut m, html_escape(title).as_str());
    push_str(&mut m, "</b> 拉取失败: ");
    push_str(&mut m, html_escape(err).as_str());
    m
}


/// A button: its label and its callback data.
pub type ButtonView = (Seq<char>, Seq<char>);

/// The lines that list candidates in a question, one per candidate.
pub open spec fn candidate_lines(c: Seq<Candidate>) -> Seq<Seq<char>> {
    Seq::new(c.len(), |i: int| spec_candidate_line(c[i], i as nat))
}

/// `<prefix><pid>:<i>` for each of the first (at most six) candidates, labelled 1, 2, ...
pub open spec fn pick_row(prefix: Seq<char>, pid: i64, n: nat) -> Seq<ButtonView> {
    Seq::new(
        if n < 6 { n } else { 6 },
        |i: int| (decimal((i + 1) as nat), prefix + int_text(pid as int) + ":"@ + decimal(i as nat)),
    )
}

/// The text of a question about the candidates of an episode: a headline that
/// names the subscription and the episode, one line per candidate, then the question.
pub open spec fn question_text(head: Seq<char>, title: Seq<char>, ep: u32, note: Seq<char>, c: Seq<Candidate>, ask: Seq<char>) -> Seq<char> {
    head + escape(title) + "</b> 第"@ + pad2(ep as int) + note + join(candidate_lines(c), "\n"@) + ask
}

/// A button whose data is `<prefix><pid>`.
pub open spec fn pid_button(label: Seq<char>, prefix: Seq<char>, pid: i64) -> ButtonView {
    (label, prefix + int_text(pid as int))
}

/// The buttons under a question about fresh candidates: one per candidate
/// (at most six), then "all", "skip" and "later".
pub open spec fn fresh_buttons(pid: i64, n: nat) -> Seq<Seq<ButtonView>> {
    seq![
        pick_row("pick:"@, pid, n),
        seq![pid_button("全部"@, "pickall:"@, pid), pid_button("跳过"@, "skip:"@, pid), pid_button("稍后"@, "later:"@, pid)],
    ]
}

/// The buttons under a question about new versions: one per candidate (at
/// most six), then "ignore" and "later".
pub open spec fn update_buttons(pid: i64, n: nat) -> Seq<Seq<ButtonView>> {
    seq![pick_row("add:"@, pid, n), seq![pid_button("忽略"@, "noadd:"@, pid), pid_button("稍后"@, "later:"@, pid)]]
}

/// The question about several fresh candidates of an episode, and its buttons.
pub open spec fn spec_fresh_question(title: Seq<char>, ep: u32, c: Seq<Candidate>, pid: i64) -> (Seq<char>, Seq<Seq<ButtonView>>) {
    (question_text("🧐 <b>"@, title, ep, "话 发现多个来源/版本\n"@, c, "\n\n要推送哪个？"@), fresh_buttons(pid, c.len()))
}

/// The question about new versions of an episode pushed before, and its buttons.
pub open spec fn spec_update_question(title: Seq<char>, ep: u32, c: Seq<Candidate>, pid: i64) -> (Seq<char>, Seq<Seq<ButtonView>>) {
    (question_text("♻️ <b>"@, title, ep, "话 发现新版本\n"@, c, "\n\n追加推送？"@), update_buttons(pid, c.len()))
}

/// `<prefix><pid>` as characters.
fn data_of(prefix: &str, pid: i64) -> (r: String)
    ensures
        r@ == prefix@ + int_text(pid as int),
{
    let mut m = String::new();
    push_str(&mut m, prefix);
    push_chars(&mut m, i64_text(pid).as_slice());
    m
}

/// A button whose data is `<prefix><pid>`.
fn button_of(label: &str, prefix: &str, pid: i64) -> (r: (String, String))
    ensures
        (r.0@, r.1@) == pid_button(label@, prefix@, pid),
{
    let mut l = String::new();
    push_str(&mut l, label);
    (l, data_of(prefix, pid))
}

/// The candidate buttons of a question.
fn pick_buttons(prefix: &str, pid: i64, n: usize) -> (r: Vec<(String, String)>)
    ensures
        r.deep_view() == pick_row(prefix@, pid, n as nat),
{
    let m: usize = if n < 6 { n } else { 6 };
    let mut row: Vec<(String, String)> = Vec::new();
    let mut i: usize = 0;
    while i < m
        invariant
            i <= m,
            m == (if n < 6 { n } else { 6 }),
            row.deep_view() == pick_row(prefix@, pid, n as nat).take(i as int),
        decreases m - i,
    {
        let mut label = String::new();
        push_chars(&mut label, decimal_chars((i + 1) as u64).as_slice());
        let mut data = data_of(prefix, pid);
        push_str(&mut data, ":");
        push_chars(&mut data, decimal_chars(i as u64).as_slice());
        let ghost before = row.deep_view();
        row.push((label, data));
        assert(row.deep_view() =~= before.push((label@, data@)));
        assert(pick_row(prefix@, pid, n as nat).take(i + 1) =~= pick_row(prefix@, pid, n as nat).take(i as int).push(
            pick_row(prefix@, pid, n as nat)[i as int],
        ));
        i = i + 1;
    }
    assert(pick_row(prefix@, pid, n as nat).take(i as int) =~= pick_row(prefix@, pid, n as nat));
    row
}

/// The lines that list candidates.
fn lines_of(cands: &[Candidate]) -> (r: String)
    ensures
        r@ == join(candidate_lines(cands@), "\n"@),
{
    let mut v: Vec<Vec<char>> = Vec::new();
    let mut i: usize = 0;
    while i < cands.len()
        invariant
            i <= cands.len(),
            v.len() == i,
            forall|j: int| 0 <= j < i ==> #[trigger] v@[j]@ == spec_candidate_line(cands@[j], j as nat),
        decreases cands.len() - i,
    {
        let line = candidate_line(&cands[i], i);
        let c = chars_of(line.as_str());
        v.push(c);
        i = i + 1;
    }
    assert(v.deep_view() =~= candidate_lines(cands@)) by {
        assert forall|j: int| 0 <= j < v.len() implies v.deep_view()[j] == candidate_lines(cands@)[j] by {
            assert(v@[j]@ == spec_candidate_line(cands@[j], j as nat));
        }
    }
    join_chars(&v, "\n")
}

/// The text of a question.
fn question_of(head: &str, title: &str, ep: u32, note: &str, cands: &[Candidate], ask: &str) -> (r: String)
    ensures
        r@ == question_text(head@, title@, ep, note@, cands@, ask@),
{
    let mut text = String::new();
    push_str(&mut text, head);
    push_str(&mut text, html_escape(title).as_str());
    push_str(&mut text, "</b> 第");
    push_str(&mut text, fmt_episode(ep).as_str());
    push_str(&mut text, note);
    push_str(&mut text, lines_of(cands).as_str());
    push_str(&mut text, ask);
    text
}

/// A keyboard of two rows.
fn two_rows(row1: Vec<(String, String)>, row2: Vec<(String, String)>) -> (r: Vec<Vec<(String, String)>>)
    ensures
        r.deep_view() == seq![row1.deep_view(), row2.deep_view()],
{
    let ghost r1 = row1.deep_view();
    let ghost r2 = row2.deep_view();
    let mut rows: Vec<Vec<(String, String)>> = Vec::new();
    rows.push(row1);
    rows.push(row2);
    assert(rows.deep_view() =~= seq![r1, r2]);
    rows
}

/// A row of buttons whose data is `<prefix><pid>`, one per label.
fn pid_row(labels: &[&str], prefixes: &[&str], pid: i64) -> (r: Vec<(String, String)>)
    requires
        labels.len() == prefixes.len(),
    ensures
        r.deep_view() == Seq::new(labels.len() as nat, |i: int| pid_button(labels@[i]@, prefixes@[i]@, pid)),
{
    let mut row: Vec<(String, String)> = Vec::new();
    let mut i: usize = 0;
    while i < labels.len()
        invariant
            i <= labels.len(),
            labels.len() == prefixes.len(),
            row.len() == i,
            forall|j: int| 0 <= j < i ==> (#[trigger] row@[j].0@, row@[j].1@) == pid_button(labels@[j]@, prefixes@[j]@, pid),
        decreases labels.len() - i,
    {
        let b = button_of(labels[i], prefixes[i], pid);
        row.push(b);
        i = i + 1;
    }
    assert(row.deep_view() =~= Seq::new(labels.len() as nat, |i: int| pid_button(labels@[i]@, prefixes@[i]@, pid))) by {
        assert forall|j: int| 0 <= j < row.len() implies row.deep_view()[j] == pid_button(labels@[j]@, prefixes@[j]@, pid) by {
            assert((row@[j].0@, row@[j].1@) == pid_button(labels@[j]@, prefixes@[j]@, pid));
        }
    }
    row
}

/// The question about several fresh candidates of an episode and its buttons.
#[verifier::spinoff_prover]
#[verifier::rlimit(40)]
pub fn fresh_question(title: &str, ep: u32, cands: &[Candidate], pid: i64) -> (r: (String, Vec<Vec<(String, String)>>))
    ensures
        (r.0@, r.1.deep_view()) == spec_fresh_question(title@, ep, cands@, pid),
{
    let text = question_of("🧐 <b>", title, ep, "话 发现多个来源/版本\n", cands, "\n\n要推送哪个？");
    let row1 = pick_buttons("pick:", pid, cands.len());
    let labels: [&str; 3] = ["全部", "跳过", "稍后"];
    let prefixes: [&str; 3] = ["pickall:", "skip:", "later:"];
    let row2 = pid_row(labels.as_slice(), prefixes.as_slice(), pid);
    assert(row2.deep_view() =~= seq![pid_button("全部"@, "pickall:"@, pid), pid_button("跳过"@, "skip:"@, pid), pid_button("稍后"@, "later:"@, pid)]);
    let rows = two_rows(row1, row2);
    (text, rows)
}

/// The question about new versions of an episode pushed before and its buttons.
#[verifier::spinoff_prover]
#[verifier::rlimit(40)]
pub fn update_question(title: &str, ep: u32, cands: &[Candidate], pid: i64) -> (r: (String, Vec<Vec<(String, String)>>))
    ensures
        (r.0@, r.1.deep_view()) == spec_update_question(title@, ep, cands@, pid),
{
    let text = question_of("♻️ <b>", title, ep, "话 发现新版本\n", cands, "\n\n追加推送？");
    let row1 = pick_buttons("add:", pid, cands.len());
    let labels: [&str; 2] = ["忽略", "稍后"];
    let prefixes: [&str; 2] = ["noadd:", "later:"];
    let row2 = pid_row(labels.as_slice(), prefixes.as_slice(), pid);
    assert(row2.deep_view() =~= seq![pid_button("忽略"@, "noadd:"@, pid), pid_button("稍后"@, "later:"@, pid)]);
    let rows = two_rows(row1, row2);
    (text, rows)
}

/// The episode total that Bangumi reports, kept only when positive.
pub fn bgm_total(reported: Option<i64>) -> (r: Option<i64>)
    ensures
        r == match reported {
            Some(n) => if n > 0 {
                Some(n)
            } else {
                None
            },
            None => None,
        },
{
    match reported {
        Some(n) => if n > 0 {
            Some(n)
        } else {
            None
        },
        None => None,
    }
}

/// A refreshed total replaces the stored one (none counting as 0) when it
/// is positive and differs from it; the result is the total it replaces.
pub open spec fn spec_bgm_update(total: i64, old: Option<i64>) -> Option<i64> {
    let prev = match old {
        Some(o) => o,
        None => 0,
    };
    if total > 0 && total != prev {
        Some(prev)
    } else {
        None
    }
}

pub fn bgm_update(total: i64, old: Option<i64>) -> (r: Option<i64>)
    ensures
        r == spec_bgm_update(total, old),
{
    let prev = match old {
        Some(o) => o,
        None => 0,
    };
    if total > 0 && total != prev {
        Some(prev)
    } else {
        None
    }
}

/// The notice of a changed episode total.
pub fn bgm_update_message(title: &str, old: i64, total: i64) -> (r: String)
    ensures
        r@ == "📚 <b>"@ + escape(title@) + "</b> BGM 总集数更新: "@ + int_text(old as int) + " → "@ + int_text(
            total as int,
        ),
{
    let mut m = String::new();
    push_str(&mut m, "📚 <b>");
    push_str(&mut m, html_escape(title).as_str());
    push_str(&mut m, "</b> BGM 总集数更新: ");
    push_chars(&mut m, i64_text(old).as_slice());
    push_str(&mut m, " → ");
    push_chars(&mut m, i64_text(total).as_slice());
    m
}

/// What one poll of a subscription did.
#[derive(Debug, Clone, Copy)]
pub struct ProcessReport {
    /// Candidates found.
    pub new: usize,
    /// Candidates pushed.
    pub pushed: usize,
    /// Questions asked.
    pub asked: usize,
}

/// The backup feed is polled when the main feed gave no candidate and a
/// backup feed is set.
pub fn needs_backup(found: usize, backup_url: &str) -> (r: bool)
    ensures
        r == (found == 0 && backup_url@.len() > 0),
{
    found == 0 && !backup_url.is_empty()
}

/// The highest pushed episode, 0 when none was pushed.
pub fn highest_episode(pushed: &[i64]) -> (r: i64)
    ensures
        r == (if pushed.len() == 0 {
            0
        } else {
            seq_max(pushed@)
        }),
        pushed.len() > 0 ==> pushed@.contains(r) && forall|k: int| 0 <= k < pushed.len() ==> pushed@[k] <= r,
{
    if pushed.len() == 0 {
        return 0;
    }
    let mut max: i64 = pushed[0];
    let mut k: usize = 1;
    assert(pushed@.take(1) =~= seq![pushed@[0]]);
    while k < pushed.len()
        invariant
            1 <= k <= pushed.len(),
            max == seq_max(pushed@.take(k as int)),
        decreases pushed.len() - k,
    {
        assert(pushed@.take(k + 1).drop_last() =~= pushed@.take(k as int));
        if pushed[k] > max {
            max = pushed[k];
        }
        k = k + 1;
    }
    assert(pushed@.take(k as int) =~= pushed@);
    proof {
        lemma_seq_max(pushed@);
    }
    max
}

} // verus!
