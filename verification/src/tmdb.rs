//! TMDB posters: the search address for a title, and the hits read from the
//! search's results.
use vstd::prelude::*;
use crate::rss::{form_urlencode, spec_form_urlencode};
use crate::text::push_str;

verus! {

/// A show found on TMDB.
#[derive(Debug, Clone)]
pub struct TmdbHit {
    pub title: String,
    /// The year it first aired.
    pub year: Option<String>,
    /// The address of its poster.
    pub poster: Option<String>,
}

/// One result of a search as read from the response: its `name`,
/// `first_air_date` and `poster_path`, each absent when missing or not text.
#[derive(Debug, Clone)]
pub struct TmdbResult {
    pub name: Option<String>,
    pub first_air_date: Option<String>,
    pub poster_path: Option<String>,
}

/// The languages searched in turn, until one gives hits.
pub open spec fn spec_search_langs() -> Seq<Seq<char>> {
    seq!["zh-CN"@, "en-US"@]
}

/// The language searched at the `i`-th try.
pub fn search_lang(i: usize) -> (r: Option<&'static str>)
    ensures
        r matches Some(l) ==> i < spec_search_langs().len() && l@ == spec_search_langs()[i as int],
        r is None ==> i >= spec_search_langs().len(),
{
    if i == 0 {
        Some("zh-CN")
    } else if i == 1 {
        Some("en-US")
    } else {
        None
    }
}

/// The address of a search for shows named `title`.
pub open spec fn spec_search_url(api_key: Seq<char>, lang: Seq<char>, title: Seq<char>) -> Seq<char> {
    "https://api.themoviedb.org/3/search/tv?api_key="@ + api_key + "&language="@ + lang + "&query="@
        + spec_form_urlencode(title)
}

pub fn search_url(api_key: &str, lang: &str, title: &str) -> (r: String)
    ensures
        r@ == spec_search_url(api_key@, lang@, title@),
{
    let mut u = String::new();
    push_str(&mut u, "https://api.themoviedb.org/3/search/tv?api_key=");
    push_str(&mut u, api_key);
    push_str(&mut u, "&language=");
    push_str(&mut u, lang);
    push_str(&mut u, "&query=");
    push_str(&mut u, form_urlencode(title).as_str());
    u
}

/// The hit for a result: its name (empty when absent), the first four
/// characters of its first air date, and the full address of its poster.
pub open spec fn spec_hit(r: TmdbResult, h: TmdbHit) -> bool {
    &&& h.title@ == (match r.name {
        Some(n) => n@,
        None => Seq::empty(),
    })
    &&& h.year.deep_view() == (match r.first_air_date {
        Some(d) => Some(
            if d@.len() <= 4 {
                d@
            } else {
                d@.take(4)
            },
        ),
        None => None,
    })
    &&& h.poster.deep_view() == (match r.poster_path {
        Some(p) => Some("https://image.tmdb.org/t/p/w500"@ + p@),
        None => None,
    })
}

pub fn hit_of(r: &TmdbResult) -> (h: TmdbHit)
    ensures
        spec_hit(*r, h),
{
    let title = match &r.name {
        Some(n) => n.clone(),
        None => String::new(),
    };
    let year = match &r.first_air_date {
        Some(d) => {
            let cs = crate::text::chars_of(d.as_str());
            let n: usize = if cs.len() <= 4 { cs.len() } else { 4 };
            let y = crate::text::slice_to_vec(cs.as_slice(), 0, n);
            assert(y@ =~= (if cs@.len() <= 4 {
                cs@
            } else {
                cs@.take(4)
            }));
            Some(crate::text::string_of(y.as_slice()))
        },
        None => None,
    };
    let poster = match &r.poster_path {
        Some(p) => {
            let mut u = String::new();
            push_str(&mut u, "https://image.tmdb.org/t/p/w500");
            push_str(&mut u, p.as_str());
            Some(u)
        },
        None => None,
    };
    TmdbHit { title, year, poster }
}

/// The hits for a search's results, in order.
pub fn hits_of(results: &[TmdbResult]) -> (r: Vec<TmdbHit>)
    ensures
        r.len() == results.len(),
        forall|i: int| 0 <= i < results.len() ==> spec_hit(#[trigger] results@[i], r@[i]),
{
    let mut out: Vec<TmdbHit> = Vec::new();
    let mut k: usize = 0;
    while k < results.len()
        invariant
            k <= results.len(),
            out.len() == k,
            forall|i: int| 0 <= i < k ==> spec_hit(#[trigger] results@[i], out@[i]),
        decreases results.len() - k,
    {
        out.push(hit_of(&results[k]));
        k = k + 1;
    }
    out
}

} // verus!
