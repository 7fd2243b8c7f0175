//! Which releases a subscription wants: keyword include / exclude lists and
//! the simplified / traditional preference.
use vstd::prelude::*;
use crate::models::{Candidate, Lang, lang_of_label};
use crate::text::{chars_of, contains, contains_chars, spec_lowercase, split, split_chars, str_eq, string_of, to_lowercase, trim, trim_chars};

verus! {

/// A keyword as it is compared: one comma-separated piece, trimmed and lowercased.
pub open spec fn keyword_of(piece: Seq<char>) -> Seq<char> {
    spec_lowercase(trim(piece))
}

/// Some non-empty keyword of the comma-separated `list` occurs in `text`.
pub open spec fn any_keyword_hits(text: Seq<char>, list: Seq<char>) -> bool {
    exists|k: int|
        0 <= k < split(list, ',').len() && keyword_of(#[trigger] split(list, ',')[k]).len() > 0
            && contains(text, keyword_of(split(list, ',')[k]))
}

/// A title passes when no exclude_kw keyword occurs in it and, when there are
/// include keywords, at least one of them does (case-insensitively).
pub open spec fn spec_matches_keywords(title: Seq<char>, include_kw: Seq<char>, exclude_kw: Seq<char>) -> bool {
    let t = spec_lowercase(title);
    &&& (trim(exclude_kw).len() == 0 || !any_keyword_hits(t, exclude_kw))
    &&& (trim(include_kw).len() == 0 || any_keyword_hits(t, include_kw))
}

/// Whether some non-empty keyword of the comma-separated `list` occurs in `text`.
fn keyword_hits(text: &[char], list: &str) -> (r: bool)
    ensures
        r == any_keyword_hits(text@, list@),
{
    let lv = chars_of(list);
    let pieces = split_chars(lv.as_slice(), ',');
    let ghost ps = split(list@, ',');
    let mut k: usize = 0;
    while k < pieces.len()
        invariant
            k <= pieces.len(),
            pieces.deep_view() == ps,
            ps == split(list@, ','),
            forall|m: int|
                0 <= m < k ==> !(keyword_of(#[trigger] ps[m]).len() > 0 && contains(
                    text@,
                    keyword_of(ps[m]),
                )),
        decreases pieces.len() - k,
    {
        assert(pieces[k as int]@ == ps[k as int]);
        let t = trim_chars(pieces[k].as_slice());
        let ts = string_of(t.as_slice());
        let kw = to_lowercase(ts.as_str());
        let kwv = chars_of(kw.as_str());
        if kwv.len() > 0 && contains_chars(text, kwv.as_slice()) {
            return true;
        }
        k = k + 1;
    }
    false
}

/// Include / exclude keyword matching (comma-separated; any include keyword
/// suffices, any exclude_kw keyword rejects).
pub fn matches_keywords(title: &str, include_kw: &str, exclude_kw: &str) -> (r: bool)
    ensures
        r == spec_matches_keywords(title@, include_kw@, exclude_kw@),
{
    let title_lower = to_lowercase(title);
    let tl = chars_of(title_lower.as_str());
    let ev = chars_of(exclude_kw);
    let et = trim_chars(ev.as_slice());
    if et.len() != 0 {
        if keyword_hits(tl.as_slice(), exclude_kw) {
            return false;
        }
    }
    let iv = chars_of(include_kw);
    let it = trim_chars(iv.as_slice());
    if it.len() != 0 {
        if !keyword_hits(tl.as_slice(), include_kw) {
            return false;
        }
    }
    true
}

/// With neither include nor exclude keywords, every title passes.
pub proof fn lemma_no_keywords_accept_all(title: Seq<char>, include_kw: Seq<char>, exclude_kw: Seq<char>)
    requires
        trim(include_kw).len() == 0,
        trim(exclude_kw).len() == 0,
    ensures
        spec_matches_keywords(title, include_kw, exclude_kw),
{
}

/// The language a subscription's preference selects (`None`: no selection).
pub open spec fn lang_target(pref: Seq<char>) -> Option<Lang> {
    if pref == "简中"@ {
        Some(Lang::Simp)
    } else if pref == "繁中"@ {
        Some(Lang::Trad)
    } else if pref == "简繁"@ {
        Some(Lang::Bilingual)
    } else {
        None
    }
}

/// The positions below `n` whose candidate has language `target`, in order.
pub open spec fn indices_with_lang(c: Seq<Candidate>, n: int, target: Lang) -> Seq<usize>
    decreases n,
{
    if n <= 0 {
        seq![]
    } else {
        let rest = indices_with_lang(c, n - 1, target);
        if lang_of_label(c[n - 1].lang@) == target {
            rest.push((n - 1) as usize)
        } else {
            rest
        }
    }
}

/// The positions of the candidates that a preference keeps: those of its
/// language, or all of them when it names none.
pub open spec fn spec_filter_by_lang(c: Seq<Candidate>, pref: Seq<char>) -> Seq<usize> {
    match lang_target(pref) {
        None => Seq::new(c.len(), |i: int| i as usize),
        Some(t) => indices_with_lang(c, c.len() as int, t),
    }
}

/// Filters candidates by a subscription's simplified / traditional
/// preference and returns the positions that match.
pub fn filter_by_lang(cands: &[Candidate], lang_pref: &str) -> (r: Vec<usize>)
    ensures
        r@ == spec_filter_by_lang(cands@, lang_pref@),
{
    let target = if str_eq(lang_pref, "简中") {
        Lang::Simp
    } else if str_eq(lang_pref, "繁中") {
        Lang::Trad
    } else if str_eq(lang_pref, "简繁") {
        Lang::Bilingual
    } else {
        let mut all: Vec<usize> = Vec::new();
        let mut i: usize = 0;
        while i < cands.len()
            invariant
                i <= cands.len(),
                all@ == Seq::new(i as nat, |j: int| j as usize),
            decreases cands.len() - i,
        {
            all.push(i);
            i = i + 1;
            assert(all@ =~= Seq::new(i as nat, |j: int| j as usize));
        }
        return all;
    };
    assert(lang_target(lang_pref@) == Some(target));
    let mut out: Vec<usize> = Vec::new();
    let mut i: usize = 0;
    while i < cands.len()
        invariant
            i <= cands.len(),
            out@ == indices_with_lang(cands@, i as int, target),
        decreases cands.len() - i,
    {
        if cands[i].lang_label() == target {
            out.push(i);
        }
        i = i + 1;
    }
    out
}

/// Every position that the language filter keeps is a valid position, the
/// positions are strictly increasing, and each kept candidate has the
/// selected language.
pub proof fn lemma_filter_by_lang_sound(c: Seq<Candidate>, pref: Seq<char>)
    requires
        c.len() <= usize::MAX,
    ensures
        forall|k: int|
            0 <= k < spec_filter_by_lang(c, pref).len() ==> (#[trigger] spec_filter_by_lang(c, pref)[k])
                < c.len(),
        forall|a: int, b: int|
            0 <= a < b < spec_filter_by_lang(c, pref).len() ==> spec_filter_by_lang(c, pref)[a]
                < spec_filter_by_lang(c, pref)[b],
        lang_target(pref) matches Some(t) ==> forall|k: int|
            0 <= k < spec_filter_by_lang(c, pref).len() ==> lang_of_label(
                c[#[trigger] spec_filter_by_lang(c, pref)[k] as int].lang@,
            ) == t,
{
    if let Some(t) = lang_target(pref) {
        lemma_indices_with_lang(c, c.len() as int, t);
    } else {
        let r = spec_filter_by_lang(c, pref);
        assert forall|a: int, b: int| 0 <= a < b < r.len() implies r[a] < r[b] by {
            assert(r[a] == a as usize && r[b] == b as usize);
        }
    }
}

proof fn lemma_indices_with_lang(c: Seq<Candidate>, n: int, t: Lang)
    requires
        n <= c.len(),
        c.len() <= usize::MAX,
    ensures
        forall|k: int|
            0 <= k < indices_with_lang(c, n, t).len() ==> (#[trigger] indices_with_lang(c, n, t)[k]) < n
                && lang_of_label(c[indices_with_lang(c, n, t)[k] as int].lang@) == t,
        forall|a: int, b: int|
            0 <= a < b < indices_with_lang(c, n, t).len() ==> indices_with_lang(c, n, t)[a]
                < indices_with_lang(c, n, t)[b],
    decreases n,
{
    if n > 0 {
        lemma_indices_with_lang(c, n - 1, t);
        let rest = indices_with_lang(c, n - 1, t);
        if lang_of_label(c[n - 1].lang@) == t {
            let r = rest.push((n - 1) as usize);
            assert forall|k: int| 0 <= k < r.len() implies (#[trigger] r[k]) < n && lang_of_label(
                c[r[k] as int].lang@,
            ) == t by {
                if k < rest.len() {
                    assert(r[k] == rest[k]);
                }
            }
            assert forall|a: int, b: int| 0 <= a < b < r.len() implies r[a] < r[b] by {
                assert(r[a] == rest[a]);
                if b < rest.len() {
                    assert(r[b] == rest[b]);
                }
            }
        }
    }
}

} // verus!
