//! Taking apart release titles in the style of Mikan / bangumi.moe, such as
//! `[Lilith-Raws] 败犬女主太多了！ - 07v2 (Baha 1080P 简中 内嵌)`: fansub,
//! series name, episode, version, language, quality, codec and source.
//! The patterns are matched by the `regex` crate (see `pattern`).
use vstd::prelude::*;
use crate::models::{Lang, ParsedTitle, TitleView};
use crate::num::parse_unsigned;
use crate::num::parse_unsigned_chars;
use crate::pattern::{captures, captures_all, groups_in_text, spec_captures, spec_captures_all, GroupView};
use crate::text::{
    chars_of, contains, contains_chars, is_ws, slice_to_vec, spec_uppercase, str_contains, string_of, to_uppercase,
    trim, trim_bounds, trim_end, trail_ws,
};

verus! {

/// Fansub group in brackets at the start.
pub const PAT_FANSUB: &'static str = r"^\[([^\]]+)\]\s*";

/// `第07话` / `第07集` / `第7话` / `第07話`.
pub const PAT_EP_CN: &'static str = r"第\s*(\d{1,3})\s*[话話集]";

/// `第07.5话`.
pub const PAT_EP_CN_HALF: &'static str = r"第\s*(\d{1,3})\.(\d+)\s*[话話集]";

/// `S01E07` / `S1E07` / `S01 E07`.
pub const PAT_EP_SEASON: &'static str = r"(?:^|[^\d])\s*[Ss]\s*(\d{1,2})\s*[Ee]\s*(\d{1,3})";

/// `- 07` / `- 07v2` / `- 07.5`; the character after the match must be a
/// space, a bracket or the end (so that a year such as 2024 is no episode).
pub const PAT_EP_DASH: &'static str = r"-\s*(\d{1,3})(?:\.(\d+))?(?:\s*[vV]\s*(\d+))?";

/// `vN` anywhere (also `07话v2` / `07v2`), to find a version.
pub const PAT_EP_VER: &'static str = r"(\d{1,3})\s*[话話集]?\s*[vV]\s*(\d+)";

/// Collections: `01-12` / `合集` / `全12话` / `全集`.
pub const PAT_COLLECTION: &'static str = r"\d{1,3}\s*-\s*\d{1,3}|合集|全\s*\d+\s*[话話集]|全集";

/// Extras: NC OP ED SP PV CM, previews, specials, menus, side stories, movies, OVA, recaps.
pub const PAT_SPECIAL: &'static str = r"\b(?:NC|OP|ED|SP|PV|CM)\b|预告|特别篇|特典|菜单|番外|剧场版|OVA|总集";

pub const PAT_QUALITY: &'static str = r"(?i)(4K|2160P|1080P|720P|480P|1080|720)";

pub const PAT_CODEC: &'static str = r"(?i)(H\.?265|HEVC|x265|H\.?264|AVC|x264|AV1)";

/// A bracketed group at the very end.
pub const PAT_TRAILING_PAREN: &'static str = r"\s*[\(\[（【][^)）\]】]*[\)\]）】]\s*$";

/// The streaming source a release was ripped from.
pub const PAT_SOURCE: &'static str = r"\b(ABEMA|Abema|CR|Crunchyroll|Baha|Bahamut|B-Global|Bilibili|Netflix|NF|AMZN|KKTV|iQIYI|YouTube|Hulu|U-NEXT)\b";

/// The groups of one match, as values.
pub type GroupsView = Seq<Option<GroupView>>;

/// The groups of one match as `regex` reports them: for each group that took
/// part, the text before it and its own text.
pub type Groups = Vec<Option<(String, String)>>;

/// The groups of a match that may be absent lie in `t`.
pub open spec fn opt_in_text(t: Seq<char>, o: Option<GroupsView>) -> bool {
    match o {
        Some(gs) => groups_in_text(t, gs),
        None => true,
    }
}

/// The text of group `i` of a match that may be absent.
pub open spec fn group_text_of(o: Option<GroupsView>, i: int) -> Option<Seq<char>> {
    match o {
        Some(gs) => gtext(gs, i),
        None => None,
    }
}

/// Group `i` of a match, if it took part.
pub open spec fn grp(gs: Seq<Option<GroupView>>, i: int) -> Option<GroupView> {
    if 0 <= i < gs.len() {
        gs[i]
    } else {
        None
    }
}

/// Where group `i` starts (in characters).
pub open spec fn gstart(gs: Seq<Option<GroupView>>, i: int) -> int {
    match grp(gs, i) {
        Some(g) => g.0.len() as int,
        None => 0,
    }
}

/// Where group `i` ends (in characters).
pub open spec fn gend(gs: Seq<Option<GroupView>>, i: int) -> int {
    match grp(gs, i) {
        Some(g) => (g.0.len() + g.1.len()) as int,
        None => 0,
    }
}

/// The text of group `i`.
pub open spec fn gtext(gs: Seq<Option<GroupView>>, i: int) -> Option<Seq<char>> {
    match grp(gs, i) {
        Some(g) => Some(g.1),
        None => None,
    }
}

/// Group `i` read as a `u32` (`str::parse`).
pub open spec fn gnum(gs: Seq<Option<GroupView>>, i: int) -> Option<u32> {
    match gtext(gs, i) {
        Some(t) => match parse_unsigned(t, u32::MAX as nat) {
            Some(v) => Some(v as u32),
            None => None,
        },
        None => None,
    }
}

/// A fraction group that marks a half episode: present and not `0`.
pub open spec fn ghalf(gs: Seq<Option<GroupView>>, i: int) -> bool {
    match gtext(gs, i) {
        Some(t) => t != seq!['0'],
        None => false,
    }
}

/// The first match of `p` in `t`.
pub open spec fn caps(p: &str, t: Seq<char>) -> Option<Seq<Option<GroupView>>> {
    spec_captures(p@, t)
}

/// The text of the first match of `p` in `t`.
pub open spec fn find_text(p: &str, t: Seq<char>) -> Option<Seq<char>> {
    match caps(p, t) {
        Some(gs) => gtext(gs, 0),
        None => None,
    }
}

/// The language named in a title, checked in the order bilingual,
/// traditional, simplified.
pub open spec fn spec_detect_lang(s: Seq<char>) -> Lang {
    if contains(s, "简繁"@) || contains(s, "双语"@) || contains(s, "简繁日"@) || contains(s, "中日双语"@)
        || contains(s, "简繁内封"@) || contains(s, "简繁外挂"@) || contains(s, "简繁内嵌"@) {
        Lang::Bilingual
    } else if contains(s, "繁中"@) || contains(s, "繁體中文"@) || contains(s, "繁體"@) || contains(s, "繁体中文"@)
        || contains(s, "繁体"@) || contains(s, "繁日"@) || contains(s, "繁中内嵌"@) || contains(s, "繁中外挂"@)
        || contains(s, "CHT"@) {
        Lang::Trad
    } else if contains(s, "简中"@) || contains(s, "简体中文"@) || contains(s, "简体"@) || contains(s, "简日"@)
        || contains(s, "简中内嵌"@) || contains(s, "简中内挂"@) || contains(s, "简中外挂"@) || contains(s, "中文字幕"@)
        || contains(s, "中文"@) || contains(s, "国语"@) || contains(s, "CHS"@) {
        Lang::Simp
    } else {
        Lang::Unknown
    }
}

/// Finds the language named in a title.
fn detect_lang(s: &str) -> (r: Lang)
    ensures
        r == spec_detect_lang(s@),
{
    if str_contains(s, "简繁") || str_contains(s, "双语") || str_contains(s, "简繁日") || str_contains(s, "中日双语")
        || str_contains(s, "简繁内封") || str_contains(s, "简繁外挂") || str_contains(s, "简繁内嵌") {
        Lang::Bilingual
    } else if str_contains(s, "繁中") || str_contains(s, "繁體中文") || str_contains(s, "繁體") || str_contains(
        s,
        "繁体中文",
    ) || str_contains(s, "繁体") || str_contains(s, "繁日") || str_contains(s, "繁中内嵌") || str_contains(
        s,
        "繁中外挂",
    ) || str_contains(s, "CHT") {
        Lang::Trad
    } else if str_contains(s, "简中") || str_contains(s, "简体中文") || str_contains(s, "简体") || str_contains(
        s,
        "简日",
    ) || str_contains(s, "简中内嵌") || str_contains(s, "简中内挂") || str_contains(s, "简中外挂")
        || str_contains(s, "中文字幕") || str_contains(s, "中文") || str_contains(s, "国语") || str_contains(s, "CHS") {
        Lang::Simp
    } else {
        Lang::Unknown
    }
}

/// The resolution named by a quality match: `4K`, `1080P`, `720P` or `480P`.
pub open spec fn spec_normalize_quality(raw: Seq<char>) -> Seq<char> {
    let upper = spec_uppercase(raw);
    if contains(upper, "4K"@) || contains(upper, "2160"@) {
        "4K"@
    } else if contains(upper, "1080"@) {
        "1080P"@
    } else if contains(upper, "720"@) {
        "720P"@
    } else {
        "480P"@
    }
}

fn normalize_quality(raw: &str) -> (r: String)
    ensures
        r@ == spec_normalize_quality(raw@),
{
    let upper = to_uppercase(raw);
    let u = upper.as_str();
    if str_contains(u, "4K") || str_contains(u, "2160") {
        "4K".to_owned()
    } else if str_contains(u, "1080") {
        "1080P".to_owned()
    } else if str_contains(u, "720") {
        "720P".to_owned()
    } else {
        "480P".to_owned()
    }
}

/// The codec named by a codec match: `HEVC`, `x264` or `AV1`.
pub open spec fn spec_normalize_codec(raw: Seq<char>) -> Seq<char> {
    let upper = spec_uppercase(raw);
    if contains(upper, "265"@) || contains(upper, "HEVC"@) {
        "HEVC"@
    } else if contains(upper, "264"@) || contains(upper, "AVC"@) {
        "x264"@
    } else {
        "AV1"@
    }
}

fn normalize_codec(raw: &str) -> (r: &'static str)
    ensures
        r@ == spec_normalize_codec(raw@),
{
    let upper = to_uppercase(raw);
    let u = upper.as_str();
    if str_contains(u, "265") || str_contains(u, "HEVC") {
        "HEVC"
    } else if str_contains(u, "264") || str_contains(u, "AVC") {
        "x264"
    } else {
        "AV1"
    }
}

/// One spelling for each source: `Abema` is `ABEMA`, `Crunchyroll` is `CR`,
/// `Bahamut` is `Baha`; the others stay as they are written.
pub open spec fn spec_normalize_source(raw: Seq<char>) -> Seq<char> {
    if raw == "Abema"@ {
        "ABEMA"@
    } else if raw == "Crunchyroll"@ {
        "CR"@
    } else if raw == "Bahamut"@ {
        "Baha"@
    } else {
        raw
    }
}

fn normalize_source(raw: &[char]) -> (r: String)
    ensures
        r@ == spec_normalize_source(raw@),
{
    let s = string_of(raw);
    if crate::text::str_eq(s.as_str(), "Abema") {
        "ABEMA".to_owned()
    } else if crate::text::str_eq(s.as_str(), "Crunchyroll") {
        "CR".to_owned()
    } else if crate::text::str_eq(s.as_str(), "Bahamut") {
        "Baha".to_owned()
    } else {
        s
    }
}

/// `s` without the bracketed group that the match `pg` found at its end
/// (with the spaces around it).
pub open spec fn strip_paren_of(s: Seq<char>, pg: Option<GroupsView>) -> Seq<char> {
    match pg {
        Some(gs) => if 0 <= gstart(gs, 0) <= gend(gs, 0) <= s.len() {
            s.take(gstart(gs, 0)) + s.skip(gend(gs, 0))
        } else {
            s
        },
        None => s,
    }
}

/// `s` without the bracketed group at its end (with the spaces around it).
pub open spec fn strip_paren(s: Seq<char>) -> Seq<char> {
    strip_paren_of(s, caps(PAT_TRAILING_PAREN, s))
}

/// `s` without trailing copies of `c` (`str::trim_end_matches`).
pub open spec fn trim_end_char(s: Seq<char>, c: char) -> Seq<char>
    decreases s.len(),
{
    if s.len() > 0 && s.last() == c {
        trim_end_char(s.drop_last(), c)
    } else {
        s
    }
}

/// Group `i` as its start position and characters.
fn group_of(gs: &Vec<Option<(String, String)>>, i: usize, t: &[char]) -> (r: Option<(usize, Vec<char>)>)
    requires
        groups_in_text(t@, gs.deep_view()),
    ensures
        r is Some <==> grp(gs.deep_view(), i as int) is Some,
        r matches Some((st, v)) ==> {
            &&& st == gstart(gs.deep_view(), i as int)
            &&& v@ == (grp(gs.deep_view(), i as int)->0).1
            &&& st + v@.len() == gend(gs.deep_view(), i as int)
            &&& st + v@.len() <= t@.len()
            &&& t@.subrange(st as int, st + v@.len()) == v@
        },
{
    if i >= gs.len() {
        return None;
    }
    assert(gs.deep_view()[i as int] == gs[i as int].deep_view());
    match &gs[i] {
        Some((pre, m)) => {
            let pv = chars_of(pre.as_str());
            let mv = chars_of(m.as_str());
            proof {
                let g = gs.deep_view()[i as int];
                assert(g == Some((pre@, m@)));
                let whole = t@.subrange(0, (pre@.len() + m@.len()) as int);
                assert(whole == pre@ + m@);
                assert(t@.subrange(pv.len() as int, pv.len() + mv.len()) =~= whole.subrange(
                    pv.len() as int,
                    whole.len() as int,
                ));
                assert(whole.subrange(pv.len() as int, whole.len() as int) =~= m@);
            }
            Some((pv.len(), mv))
        },
        None => None,
    }
}

/// A group's characters read as a `u32`.
fn group_num(g: &Option<(usize, Vec<char>)>) -> (r: Option<u32>)
    ensures
        r == match g {
            Some((_, v)) => match parse_unsigned(v@, u32::MAX as nat) {
                Some(n) => Some(n as u32),
                None => None,
            },
            None => None,
        },
{
    match g {
        Some((_, v)) => match parse_unsigned_chars(v.as_slice(), 0xffff_ffffu64) {
            Some(n) => Some(n as u32),
            None => None,
        },
        None => None,
    }
}

/// A fraction group present and not `0`.
fn group_half(g: &Option<(usize, Vec<char>)>) -> (r: bool)
    ensures
        r == match g {
            Some((_, v)) => v@ != seq!['0'],
            None => false,
        },
{
    match g {
        Some((_, v)) => {
            if v.len() == 1 && v[0] == '0' {
                assert(v@ =~= seq!['0']);
                false
            } else {
                true
            }
        },
        None => false,
    }
}

/// Removes the bracketed group that the match `pg` found at the end.
fn strip_trailing_paren(s: &[char], pg: &Option<Groups>) -> (r: Vec<char>)
    requires
        opt_in_text(s@, pg.deep_view()),
    ensures
        r@ == strip_paren_of(s@, pg.deep_view()),
{
    match pg {
        Some(gs) => {
            assert(pg.deep_view() == Some(gs.deep_view()));
            match group_of(gs, 0, s) {
                Some((st, m)) => {
                    assert(st + m@.len() <= s@.len());
                    let n = s.len();
                    let ml = m.len();
                    assert(st + ml <= n);
                    let e = st + ml;
                    let mut out = slice_to_vec(s, 0, st);
                    let tail = slice_to_vec(s, e, s.len());
                    let mut k: usize = 0;
                    let ghost head = out@;
                    while k < tail.len()
                        invariant
                            k <= tail.len(),
                            out@ == head + tail@.take(k as int),
                        decreases tail.len() - k,
                    {
                        out.push(tail[k]);
                        k = k + 1;
                        assert(out@ =~= head + tail@.take(k as int));
                    }
                    assert(tail@.take(k as int) =~= tail@);
                    assert(s@.subrange(0, st as int) =~= s@.take(st as int));
                    assert(s@.subrange(e as int, s.len() as int) =~= s@.skip(e as int));
                    out
                },
                None => {
                    assert(false);
                    slice_to_vec(s, 0, s.len())
                },
            }
        },
        None => {
            let r = slice_to_vec(s, 0, s.len());
            assert(r@ =~= s@);
            r
        },
    }
}

/// The fansub and the rest of the title after it, from the match `fg` of
/// the fansub pattern on the title.
pub open spec fn fansub_rest_of(raw: Seq<char>, fg: Option<GroupsView>) -> (Option<Seq<char>>, Seq<char>) {
    match fg {
        Some(gs) => (gtext(gs, 1), trim(raw.skip(gend(gs, 0)))),
        None => (None, raw),
    }
}

/// How far the title is cut: the fansub and what follows it.
pub open spec fn spec_fansub_rest(raw: Seq<char>) -> (Option<Seq<char>>, Seq<char>) {
    fansub_rest_of(raw, caps(PAT_FANSUB, raw))
}

/// Whether the character after a dash match allows it: a space, a tab, a
/// bracket, or the end of the text.
pub open spec fn dash_end_ok(rest: Seq<char>, e: int) -> bool {
    e >= rest.len() || rest[e] == ' ' || rest[e] == '\t' || rest[e] == '(' || rest[e] == '['
        || rest[e] == '（' || rest[e] == '【'
}

/// The last dash match that is allowed: episode, where it starts, version, half.
pub open spec fn spec_dash_scan(rest: Seq<char>, all: Seq<Seq<Option<GroupView>>>) -> (
    Option<u32>,
    Option<int>,
    Option<u32>,
    bool,
)
    decreases all.len(),
{
    if all.len() == 0 {
        (None, None, None, false)
    } else {
        let gs = all.last();
        if dash_end_ok(rest, gend(gs, 0)) {
            (gnum(gs, 1), Some(gstart(gs, 0)), gnum(gs, 3), ghalf(gs, 2))
        } else {
            spec_dash_scan(rest, all.drop_last())
        }
    }
}

/// The matches of the patterns on the rest of a title, as values.
pub struct MatchesView {
    pub quality: Option<GroupsView>,
    pub codec: Option<GroupsView>,
    pub source: Option<GroupsView>,
    pub collection: Option<GroupsView>,
    pub special: Option<GroupsView>,
    pub ep_cn_half: Option<GroupsView>,
    pub ep_cn: Option<GroupsView>,
    pub ep_season: Option<GroupsView>,
    pub ep_dash: Seq<GroupsView>,
    pub ep_ver: Option<GroupsView>,
}

/// What the patterns find on the rest of a title.
pub open spec fn matches_on(rest: Seq<char>) -> MatchesView {
    MatchesView {
        quality: caps(PAT_QUALITY, rest),
        codec: caps(PAT_CODEC, rest),
        source: caps(PAT_SOURCE, rest),
        collection: caps(PAT_COLLECTION, rest),
        special: caps(PAT_SPECIAL, rest),
        ep_cn_half: caps(PAT_EP_CN_HALF, rest),
        ep_cn: caps(PAT_EP_CN, rest),
        ep_season: caps(PAT_EP_SEASON, rest),
        ep_dash: spec_captures_all(PAT_EP_DASH@, rest),
        ep_ver: caps(PAT_EP_VER, rest),
    }
}

/// Every group of the matches lies in `rest`.
pub open spec fn matches_in_text(rest: Seq<char>, m: MatchesView) -> bool {
    &&& opt_in_text(rest, m.quality)
    &&& opt_in_text(rest, m.codec)
    &&& opt_in_text(rest, m.source)
    &&& opt_in_text(rest, m.collection)
    &&& opt_in_text(rest, m.special)
    &&& opt_in_text(rest, m.ep_cn_half)
    &&& opt_in_text(rest, m.ep_cn)
    &&& opt_in_text(rest, m.ep_season)
    &&& opt_in_text(rest, m.ep_ver)
    &&& forall|k: int| 0 <= k < m.ep_dash.len() ==> groups_in_text(rest, #[trigger] m.ep_dash[k])
}

/// The episode, where its mention starts, the version written next to it,
/// and whether it is a half episode: `第X.Y话`, then `第X话`, then `SxxEyy`,
/// then `- XX`.
pub open spec fn episode_info_of(rest: Seq<char>, m: MatchesView) -> (Option<u32>, Option<int>, Option<u32>, bool) {
    match m.ep_cn_half {
        Some(gs) => (gnum(gs, 1), Some(gstart(gs, 0)), None, ghalf(gs, 2)),
        None => match m.ep_cn {
            Some(gs) => (gnum(gs, 1), Some(gstart(gs, 0)), None, false),
            None => match m.ep_season {
                Some(gs) => (gnum(gs, 2), Some(gstart(gs, 0)), None, false),
                None => spec_dash_scan(rest, m.ep_dash),
            },
        },
    }
}

/// The version: the one written at the dash, else the `vN` of the match
/// `ver` when it is next to the same episode number, else 1.
pub open spec fn version_from(ver: Option<GroupsView>, episode: Option<u32>, dash_version: Option<u32>) -> u32 {
    match dash_version {
        Some(v) => v,
        None => match episode {
            None => 1,
            Some(ep) => match ver {
                None => 1,
                Some(gs) => match gnum(gs, 1) {
                    Some(n) => if n == ep {
                        match gnum(gs, 2) {
                            Some(v) => v,
                            None => 1,
                        }
                    } else {
                        1
                    },
                    None => 1,
                },
            },
        },
    }
}

/// The text before the episode mention without trailing spaces and dashes;
/// without a mention, the whole rest.
pub open spec fn head_before(rest: Seq<char>, pos: Option<int>) -> Seq<char> {
    match pos {
        Some(p) => trim_end(trim_end_char(trim_end_char(trim(rest.take(p)), '-'), '–')),
        None => rest,
    }
}

/// The series name before its trailing bracketed group is removed: the
/// whole rest of a collection, else the text before the episode mention.
pub open spec fn anime_head(rest: Seq<char>, m: MatchesView) -> Seq<char> {
    if m.collection is Some {
        rest
    } else {
        head_before(rest, episode_info_of(rest, m).1)
    }
}

/// What a title says, given the match `fg` of the fansub pattern on it, the
/// matches `m` on the rest after the fansub, and the match `pg` of the
/// trailing bracket pattern on the series name.
pub open spec fn title_view_from(raw: Seq<char>, fg: Option<GroupsView>, m: MatchesView, pg: Option<GroupsView>) -> TitleView {
    let (fansub, rest) = fansub_rest_of(raw, fg);
    let quality = match group_text_of(m.quality, 0) {
        Some(t) => Some(spec_normalize_quality(t)),
        None => None,
    };
    let codec = match group_text_of(m.codec, 0) {
        Some(t) => Some(spec_normalize_codec(t)),
        None => None,
    };
    let source = match group_text_of(m.source, 1) {
        Some(t) => Some(spec_normalize_source(t)),
        None => None,
    };
    let anime = strip_paren_of(anime_head(rest, m), pg);
    if m.collection is Some {
        TitleView {
            fansub,
            anime,
            episode: None,
            version: 1,
            lang: spec_detect_lang(rest),
            quality,
            codec,
            source,
            is_collection: true,
            is_special: m.special is Some,
            is_half: false,
            raw,
        }
    } else {
        let (episode, pos, dash_version, is_half) = episode_info_of(rest, m);
        TitleView {
            fansub,
            anime,
            episode,
            version: version_from(m.ep_ver, episode, dash_version),
            lang: spec_detect_lang(rest),
            quality,
            codec,
            source,
            is_collection: false,
            is_special: m.special is Some,
            is_half,
            raw,
        }
    }
}

/// What the title says, as values.
pub open spec fn spec_parse_title(raw_in: Seq<char>) -> TitleView {
    let raw = trim(raw_in);
    let fg = caps(PAT_FANSUB, raw);
    let rest = fansub_rest_of(raw, fg).1;
    let m = matches_on(rest);
    title_view_from(raw, fg, m, caps(PAT_TRAILING_PAREN, anime_head(rest, m)))
}


/// The characters of `Some(v)`.
pub open spec fn opt_chars(r: Option<Vec<char>>) -> Option<Seq<char>> {
    match r {
        Some(v) => Some(v@),
        None => None,
    }
}

/// The text of group `i` of the match `o`.
fn group_text(o: &Option<Groups>, i: usize, t: &[char]) -> (r: Option<Vec<char>>)
    requires
        opt_in_text(t@, o.deep_view()),
    ensures
        opt_chars(r) == group_text_of(o.deep_view(), i as int),
{
    match o {
        Some(gs) => {
            assert(o.deep_view() == Some(gs.deep_view()));
            match group_of(gs, i, t) {
                Some((_, v)) => Some(v),
                None => None,
            }
        },
        None => None,
    }
}

/// The fansub in brackets at the start, and the rest of the title after it,
/// from the match `fg` of the fansub pattern.
fn fansub_rest(raw: &[char], fg: &Option<Groups>) -> (r: (Option<String>, Vec<char>))
    requires
        opt_in_text(raw@, fg.deep_view()),
    ensures
        (r.0.deep_view(), r.1@) == fansub_rest_of(raw@, fg.deep_view()),
{
    match fg {
        Some(gs) => {
            assert(fg.deep_view() == Some(gs.deep_view()));
            let fansub = match group_of(gs, 1, raw) {
                Some((_, v)) => Some(string_of(v.as_slice())),
                None => None,
            };
            match group_of(gs, 0, raw) {
                Some((st, m)) => {
                    let n = raw.len();
                    let ml = m.len();
                    assert(st + ml <= n);
                    let after = slice_to_vec(raw, st + ml, n);
                    assert(after@ =~= raw@.skip(gend(gs.deep_view(), 0)));
                    let rest = crate::text::trim_chars(after.as_slice());
                    (fansub, rest)
                },
                None => {
                    assert(false);
                    (None, slice_to_vec(raw, 0, raw.len()))
                },
            }
        },
        None => {
            let r = slice_to_vec(raw, 0, raw.len());
            assert(r@ =~= raw@);
            (None, r)
        },
    }
}

/// The matches of the patterns on the rest of a title.
pub struct TitleMatches {
    pub quality: Option<Groups>,
    pub codec: Option<Groups>,
    pub source: Option<Groups>,
    pub collection: Option<Groups>,
    pub special: Option<Groups>,
    pub ep_cn_half: Option<Groups>,
    pub ep_cn: Option<Groups>,
    pub ep_season: Option<Groups>,
    pub ep_dash: Vec<Groups>,
    pub ep_ver: Option<Groups>,
}

impl View for TitleMatches {
    type V = MatchesView;

    open spec fn view(&self) -> MatchesView {
        MatchesView {
            quality: self.quality.deep_view(),
            codec: self.codec.deep_view(),
            source: self.source.deep_view(),
            collection: self.collection.deep_view(),
            special: self.special.deep_view(),
            ep_cn_half: self.ep_cn_half.deep_view(),
            ep_cn: self.ep_cn.deep_view(),
            ep_season: self.ep_season.deep_view(),
            ep_dash: self.ep_dash.deep_view(),
            ep_ver: self.ep_ver.deep_view(),
        }
    }
}

/// Runs the patterns on the rest of a title.
fn matches_of(rest: &[char]) -> (m: TitleMatches)
    ensures
        m@ == matches_on(rest@),
        matches_in_text(rest@, m@),
{
    let rs = string_of(rest);
    let t = rs.as_str();
    let m = TitleMatches {
        quality: captures(PAT_QUALITY, t),
        codec: captures(PAT_CODEC, t),
        source: captures(PAT_SOURCE, t),
        collection: captures(PAT_COLLECTION, t),
        special: captures(PAT_SPECIAL, t),
        ep_cn_half: captures(PAT_EP_CN_HALF, t),
        ep_cn: captures(PAT_EP_CN, t),
        ep_season: captures(PAT_EP_SEASON, t),
        ep_dash: captures_all(PAT_EP_DASH, t),
        ep_ver: captures(PAT_EP_VER, t),
    };
    assert(m@ =~= matches_on(rest@));
    m
}

/// The episode facts with the position as an integer.
pub open spec fn info_view(x: (Option<u32>, Option<usize>, Option<u32>, bool)) -> (
    Option<u32>,
    Option<int>,
    Option<u32>,
    bool,
) {
    (
        x.0,
        match x.1 {
            Some(p) => Some(p as int),
            None => None,
        },
        x.2,
        x.3,
    )
}

/// Whether the character at `e` lets a dash match stand.
fn dash_end_allows(rest: &[char], e: usize) -> (r: bool)
    ensures
        r == dash_end_ok(rest@, e as int),
{
    if e >= rest.len() {
        return true;
    }
    let c = rest[e];
    c == ' ' || c == '\t' || c == '(' || c == '[' || c == '（' || c == '【'
}

/// The last allowed `- XX` episode mention.
fn dash_scan(rest: &[char], all: &Vec<Groups>) -> (r: (Option<u32>, Option<usize>, Option<u32>, bool))
    requires
        forall|k: int| 0 <= k < all.len() ==> groups_in_text(rest@, #[trigger] all.deep_view()[k]),
    ensures
        info_view(r) == spec_dash_scan(rest@, all.deep_view()),
        r.1 matches Some(p) ==> p <= rest.len(),
{
    let ghost av = all.deep_view();
    let mut found: (Option<u32>, Option<usize>, Option<u32>, bool) = (None, None, None, false);
    let mut k: usize = 0;
    assert(av.take(0) =~= Seq::<Seq<Option<GroupView>>>::empty());
    while k < all.len()
        invariant
            k <= all.len(),
            av == all.deep_view(),
            forall|j: int| 0 <= j < all.len() ==> groups_in_text(rest@, #[trigger] all.deep_view()[j]),
            info_view(found) == spec_dash_scan(rest@, av.take(k as int)),
            found.1 matches Some(p) ==> p <= rest.len(),
        decreases all.len() - k,
    {
        let gs = &all[k];
        assert(av[k as int] == gs.deep_view());
        assert(groups_in_text(rest@, gs.deep_view()));
        assert(av.take(k + 1).last() == av[k as int]);
        assert(av.take(k + 1).drop_last() =~= av.take(k as int));
        match group_of(gs, 0, rest) {
            Some((st, m)) => {
                let n = rest.len();
                let ml = m.len();
                assert(st + ml <= n);
                if dash_end_allows(rest, st + ml) {
                    let g1 = group_of(gs, 1, rest);
                    let g2 = group_of(gs, 2, rest);
                    let g3 = group_of(gs, 3, rest);
                    found = (group_num(&g1), Some(st), group_num(&g3), group_half(&g2));
                }
            },
            None => {
                assert(false);
            },
        }
        k = k + 1;
    }
    assert(av.take(k as int) =~= av);
    found
}

/// Where the episode is mentioned and what it is.
fn episode_info(rest: &[char], m: &TitleMatches) -> (r: (Option<u32>, Option<usize>, Option<u32>, bool))
    requires
        matches_in_text(rest@, m@),
    ensures
        info_view(r) == episode_info_of(rest@, m@),
        r.1 matches Some(p) ==> p <= rest.len(),
{
    if let Some(gs) = &m.ep_cn_half {
        assert(m@.ep_cn_half == Some(gs.deep_view()));
        let g0 = group_of(gs, 0, rest);
        let g1 = group_of(gs, 1, rest);
        let g2 = group_of(gs, 2, rest);
        match g0 {
            Some((st, _)) => (group_num(&g1), Some(st), None, group_half(&g2)),
            None => {
                assert(false);
                (None, None, None, false)
            },
        }
    } else if let Some(gs) = &m.ep_cn {
        assert(m@.ep_cn == Some(gs.deep_view()));
        let g0 = group_of(gs, 0, rest);
        let g1 = group_of(gs, 1, rest);
        match g0 {
            Some((st, _)) => (group_num(&g1), Some(st), None, false),
            None => {
                assert(false);
                (None, None, None, false)
            },
        }
    } else if let Some(gs) = &m.ep_season {
        assert(m@.ep_season == Some(gs.deep_view()));
        let g0 = group_of(gs, 0, rest);
        let g2 = group_of(gs, 2, rest);
        match g0 {
            Some((st, _)) => (group_num(&g2), Some(st), None, false),
            None => {
                assert(false);
                (None, None, None, false)
            },
        }
    } else {
        assert(m@.ep_dash == m.ep_dash.deep_view());
        assert(m.ep_dash.deep_view().len() == m.ep_dash.len());
        dash_scan(rest, &m.ep_dash)
    }
}

/// The version of the release, from the match `ver` of the version pattern.
fn version_of(rest: &[char], ver: &Option<Groups>, episode: Option<u32>, dash_version: Option<u32>) -> (r: u32)
    requires
        opt_in_text(rest@, ver.deep_view()),
    ensures
        r == version_from(ver.deep_view(), episode, dash_version),
{
    match dash_version {
        Some(v) => v,
        None => match episode {
            None => 1,
            Some(ep) => match ver {
                None => 1,
                Some(gs) => {
                    assert(ver.deep_view() == Some(gs.deep_view()));
                    let g1 = group_of(gs, 1, rest);
                    match group_num(&g1) {
                        Some(n) => if n == ep {
                            let g2 = group_of(gs, 2, rest);
                            match group_num(&g2) {
                                Some(v) => v,
                                None => 1,
                            }
                        } else {
                            1
                        },
                        None => 1,
                    }
                },
            },
        },
    }
}

/// `s` without trailing copies of `c`.
fn trim_end_char_vec(s: &[char], c: char) -> (r: Vec<char>)
    ensures
        r@ == trim_end_char(s@, c),
{
    let mut e: usize = s.len();
    assert(s@.take(s.len() as int) =~= s@);
    while e > 0 && s[e - 1] == c
        invariant
            e <= s.len(),
            trim_end_char(s@, c) == trim_end_char(s@.take(e as int), c),
        decreases e,
    {
        assert(s@.take(e as int).drop_last() =~= s@.take(e - 1));
        e = e - 1;
    }
    let r = slice_to_vec(s, 0, e);
    assert(r@ =~= s@.take(e as int));
    r
}

/// `s` without trailing copies of `c`.
pub fn trim_end_char_of(s: &[char], c: char) -> (r: Vec<char>)
    ensures
        r@ == trim_end_char(s@, c),
{
    trim_end_char_vec(s, c)
}

/// `s` without trailing whitespace.
fn trim_end_vec(s: &[char]) -> (r: Vec<char>)
    ensures
        r@ == trim_end(s@),
{
    let mut e: usize = s.len();
    while e > 0 && crate::text::is_whitespace(s[e - 1])
        invariant
            e <= s.len(),
            forall|k: int| e <= k < s.len() ==> is_ws(#[trigger] s@[k]),
        decreases e,
    {
        e = e - 1;
    }
    proof {
        lemma_trail_ws_at(s@, (s.len() - e) as int);
    }
    slice_to_vec(s, 0, e)
}

proof fn lemma_trail_ws_at(s: Seq<char>, n: int)
    requires
        0 <= n <= s.len(),
        forall|k: int| s.len() - n <= k < s.len() ==> is_ws(#[trigger] s[k]),
        n < s.len() ==> !is_ws(s[s.len() - n - 1]),
    ensures
        trail_ws(s) == n,
    decreases s.len(),
{
    if n > 0 {
        assert forall|k: int| s.drop_last().len() - (n - 1) <= k < s.drop_last().len() implies is_ws(
            #[trigger] s.drop_last()[k],
        ) by {
            assert(s.drop_last()[k] == s[k]);
        }
        lemma_trail_ws_at(s.drop_last(), n - 1);
    }
}

/// The text before the episode mention at `pos`.
fn head_at(rest: &[char], pos: Option<usize>) -> (r: Vec<char>)
    requires
        pos matches Some(p) ==> p <= rest.len(),
    ensures
        r@ == head_before(
            rest@,
            match pos {
                Some(p) => Some(p as int),
                None => None,
            },
        ),
{
    match pos {
        Some(p) => {
            let head0 = crate::text::trim_chars(&rest[0..p]);
            assert(rest@.subrange(0, p as int) =~= rest@.take(p as int));
            let head1 = trim_end_char_vec(head0.as_slice(), '-');
            let head2 = trim_end_char_vec(head1.as_slice(), '–');
            trim_end_vec(head2.as_slice())
        },
        None => slice_to_vec(rest, 0, rest.len()),
    }
}

/// The series name before its trailing bracketed group is removed.
fn head_of(rest: &[char], m: &TitleMatches) -> (r: Vec<char>)
    requires
        matches_in_text(rest@, m@),
    ensures
        r@ == anime_head(rest@, m@),
{
    if m.collection.is_some() {
        let r = slice_to_vec(rest, 0, rest.len());
        assert(r@ =~= rest@);
        r
    } else {
        let (_, pos, _, _) = episode_info(rest, m);
        head_at(rest, pos)
    }
}

/// What a title says, given what the patterns found: `fansub`, the match of
/// the fansub pattern on the title `raw`; `found`, the matches on the rest of
/// the title after the fansub; and `paren`, the match of the trailing bracket
/// pattern on the series name (the text before the episode mention).
/// Collections come first (no episode); then the episode is taken from
/// `第X.Y话`, `第X话`, `SxxEyy` or the last allowed `- XX`, in that order.
pub fn title_from(raw: &str, fansub: &Option<Groups>, found: &TitleMatches, paren: &Option<Groups>) -> (r: ParsedTitle)
    requires
        opt_in_text(raw@, fansub.deep_view()),
        matches_in_text(fansub_rest_of(raw@, fansub.deep_view()).1, found@),
        opt_in_text(anime_head(fansub_rest_of(raw@, fansub.deep_view()).1, found@), paren.deep_view()),
    ensures
        r@ == title_view_from(raw@, fansub.deep_view(), found@, paren.deep_view()),
{
    let rv = chars_of(raw);
    let (fansub_name, rest) = fansub_rest(rv.as_slice(), fansub);
    let quality = match group_text(&found.quality, 0, rest.as_slice()) {
        Some(t) => {
            let ts = string_of(t.as_slice());
            Some(normalize_quality(ts.as_str()))
        },
        None => None,
    };
    let codec = match group_text(&found.codec, 0, rest.as_slice()) {
        Some(t) => {
            let ts = string_of(t.as_slice());
            Some(normalize_codec(ts.as_str()).to_owned())
        },
        None => None,
    };
    let source = match group_text(&found.source, 1, rest.as_slice()) {
        Some(t) => Some(normalize_source(t.as_slice())),
        None => None,
    };
    let rest_s = string_of(rest.as_slice());
    let lang = detect_lang(rest_s.as_str());
    let is_special = found.special.is_some();
    let head = head_of(rest.as_slice(), found);
    let anime = strip_trailing_paren(head.as_slice(), paren);
    let raw_s = raw.to_string();
    let ghost tv = title_view_from(raw@, fansub.deep_view(), found@, paren.deep_view());
    assert(quality.deep_view() == tv.quality);
    assert(codec.deep_view() == tv.codec);
    assert(source.deep_view() == tv.source);
    assert(fansub_name.deep_view() == tv.fansub);
    assert(lang == tv.lang);
    assert(is_special == tv.is_special);
    assert(anime@ == tv.anime);
    if found.collection.is_some() {
        return ParsedTitle {
            fansub: fansub_name,
            anime: string_of(anime.as_slice()),
            episode: None,
            version: 1,
            lang,
            quality,
            codec,
            source,
            is_collection: true,
            is_special,
            is_half: false,
            raw: raw_s,
        };
    }
    let (episode, _, dash_version, is_half) = episode_info(rest.as_slice(), found);
    let version = version_of(rest.as_slice(), &found.ep_ver, episode, dash_version);
    ParsedTitle {
        fansub: fansub_name,
        anime: string_of(anime.as_slice()),
        episode,
        version,
        lang,
        quality,
        codec,
        source,
        is_collection: false,
        is_special,
        is_half,
        raw: raw_s,
    }
}

/// Takes apart a Mikan-style title, for example
/// `[Lilith-Raws] 败犬女主太多了！ - 07v2 (Baha 1080P 简中 内嵌)`: the
/// patterns are run on the trimmed title, then on the rest after the fansub,
/// then on the series name, and `title_from` reads what they found.
pub fn parse_title(raw_in: &str) -> (r: ParsedTitle)
    ensures
        r@ == spec_parse_title(raw_in@),
{
    let rv = chars_of(raw_in);
    let raw = crate::text::trim_chars(rv.as_slice());
    let raw_s = string_of(raw.as_slice());
    let fansub = captures(PAT_FANSUB, raw_s.as_str());
    let (_, rest) = fansub_rest(raw.as_slice(), &fansub);
    let found = matches_of(rest.as_slice());
    let head = head_of(rest.as_slice(), &found);
    let head_s = string_of(head.as_slice());
    let paren = captures(PAT_TRAILING_PAREN, head_s.as_str());
    title_from(raw_s.as_str(), &fansub, &found, &paren)
}

} // verus!
