//! The data the library works on: subtitle languages, parsed titles, feed
//! items, candidates for pushing, subscriptions and pending decisions.
use vstd::prelude::*;
use crate::num::{pad2, i64_pad2};
use crate::text::{str_eq, string_of};

verus! {

/// Subtitle language of a release: simplified, traditional, both, or unknown.
#[derive(Debug, Clone, Copy, PartialEq, Eq, Structural)]
pub enum Lang {
    Simp,
    Trad,
    Bilingual,
    Unknown,
}

/// The label of a language as it is shown and stored.
pub open spec fn label_of(l: Lang) -> Seq<char> {
    match l {
        Lang::Simp => "简中"@,
        Lang::Trad => "繁中"@,
        Lang::Bilingual => "简繁"@,
        Lang::Unknown => "未知"@,
    }
}

/// The language a stored label names; anything else is unknown.
pub open spec fn lang_of_label(s: Seq<char>) -> Lang {
    if s == "繁中"@ {
        Lang::Trad
    } else if s == "简繁"@ {
        Lang::Bilingual
    } else if s == "简中"@ {
        Lang::Simp
    } else {
        Lang::Unknown
    }
}

impl Lang {
    /// The label of the language.
    pub fn label(&self) -> (r: &'static str)
        ensures
            r@ == label_of(*self),
    {
        match self {
            Lang::Simp => "简中",
            Lang::Trad => "繁中",
            Lang::Bilingual => "简繁",
            Lang::Unknown => "未知",
        }
    }

    /// The language that a label names (`Unknown` for any other text).
    pub fn from_label(s: &str) -> (r: Lang)
        ensures
            r == lang_of_label(s@),
    {
        if str_eq(s, "繁中") {
            Lang::Trad
        } else if str_eq(s, "简繁") {
            Lang::Bilingual
        } else if str_eq(s, "简中") {
            Lang::Simp
        } else {
            Lang::Unknown
        }
    }
}

/// Reading back the label of a language gives the language.
pub proof fn lemma_label_roundtrip(l: Lang)
    ensures
        lang_of_label(label_of(l)) == l,
{
    reveal_strlit("简中");
    reveal_strlit("繁中");
    reveal_strlit("简繁");
    reveal_strlit("未知");
    assert("简中"@[0] != "繁中"@[0]);
    assert("简中"@[1] != "简繁"@[1]);
    assert("繁中"@[0] != "简繁"@[0]);
    assert("未知"@[0] != "繁中"@[0]);
    assert("未知"@[0] != "简繁"@[0]);
    assert("未知"@[0] != "简中"@[0]);
}

/// A release title taken apart.
#[derive(Debug, Clone)]
pub struct ParsedTitle {
    pub fansub: Option<String>,
    pub anime: String,
    pub episode: Option<u32>,
    pub version: u32,
    pub lang: Lang,
    pub quality: Option<String>,
    pub codec: Option<String>,
    pub source: Option<String>,
    pub is_collection: bool,
    pub is_special: bool,
    pub is_half: bool,
    pub raw: String,
}

/// A parsed title as values: the texts as character sequences.
pub struct TitleView {
    pub fansub: Option<Seq<char>>,
    pub anime: Seq<char>,
    pub episode: Option<u32>,
    pub version: u32,
    pub lang: Lang,
    pub quality: Option<Seq<char>>,
    pub codec: Option<Seq<char>>,
    pub source: Option<Seq<char>>,
    pub is_collection: bool,
    pub is_special: bool,
    pub is_half: bool,
    pub raw: Seq<char>,
}

impl View for ParsedTitle {
    type V = TitleView;

    open spec fn view(&self) -> TitleView {
        TitleView {
            fansub: self.fansub.deep_view(),
            anime: self.anime@,
            episode: self.episode,
            version: self.version,
            lang: self.lang,
            quality: self.quality.deep_view(),
            codec: self.codec.deep_view(),
            source: self.source.deep_view(),
            is_collection: self.is_collection,
            is_special: self.is_special,
            is_half: self.is_half,
            raw: self.raw@,
        }
    }
}

/// One item of a feed.
#[derive(Debug, Clone)]
pub struct RssItem {
    pub title: String,
    pub link: String,
    pub magnet: Option<String>,
    pub enclosure_url: Option<String>,
    pub enclosure_type: Option<String>,
    pub guid: String,
}

/// A feed item as values.
pub struct RssItemView {
    pub title: Seq<char>,
    pub link: Seq<char>,
    pub magnet: Option<Seq<char>>,
    pub enclosure_url: Option<Seq<char>>,
    pub enclosure_type: Option<Seq<char>>,
    pub guid: Seq<char>,
}

impl View for RssItem {
    type V = RssItemView;

    open spec fn view(&self) -> RssItemView {
        RssItemView {
            title: self.title@,
            link: self.link@,
            magnet: self.magnet.deep_view(),
            enclosure_url: self.enclosure_url.deep_view(),
            enclosure_type: self.enclosure_type.deep_view(),
            guid: self.guid@,
        }
    }
}

/// A release that passed the filters and waits to be pushed or asked about.
#[derive(Debug, Clone)]
pub struct Candidate {
    pub title: String,
    pub magnet: String,
    pub fansub: Option<String>,
    pub episode: u32,
    pub version: u32,
    pub lang: String,
    pub quality: Option<String>,
    pub codec: Option<String>,
    pub source: Option<String>,
    pub link: String,
}

impl Candidate {
    /// The language named by the candidate's label.
    pub fn lang_label(&self) -> (r: Lang)
        ensures
            r == lang_of_label(self.lang@),
    {
        Lang::from_label(self.lang.as_str())
    }
}

/// A subscription.
#[derive(Debug, Clone)]
pub struct SubRow {
    pub id: i64,
    pub rss_url: String,
    pub title: String,
    pub start_episode: i64,
    pub lang_pref: String,
    pub include_kw: String,
    pub exclude_kw: String,
    pub enabled: bool,
    pub last_fetch_at: Option<String>,
    pub created_at: String,
    pub backup_rss_url: String,
    pub total_episodes: Option<i64>,
    pub bgm_id: Option<i64>,
    pub last_push_at: Option<String>,
    pub last_slack_notified: Option<String>,
    pub gap_notified: Option<String>,
    pub poster_url: Option<String>,
}

/// A conflict that waits for the user's decision.
#[derive(Debug, Clone)]
pub struct Pending {
    pub id: i64,
    pub subscription_id: i64,
    pub episode: i64,
    pub candidates_json: String,
    pub kind: String,
}

/// Episode numbers in one format: two digits below 100 (`01 02 03 ...`).
pub fn fmt_episode(ep: u32) -> (r: String)
    ensures
        r@ == pad2(ep as int),
{
    let v = i64_pad2(ep as i64);
    string_of(v.as_slice())
}

/// A subscription's first episode in the same format: two digits below 100.
pub fn fmt_episode_i(e: i64) -> (r: String)
    ensures
        r@ == pad2(e as int),
{
    string_of(i64_pad2(e).as_slice())
}

} // verus!
