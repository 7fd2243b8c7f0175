use btboy::filter::{filter_by_lang, matches_keywords};
use btboy::models::Candidate;

#[test]
fn keyword_exclude() {
    assert!(!matches_keywords("[xx] 番 - 01 (生肉)", "", "生肉"));
    assert!(matches_keywords("[xx] 番 - 01 (简中)", "", "生肉"));
}

#[test]
fn keyword_include() {
    assert!(matches_keywords("[xx] 番 - 01 (1080P)", "1080P", ""));
    assert!(!matches_keywords("[xx] 番 - 01 (720P)", "1080P", ""));
}

#[test]
fn keywords_are_case_insensitive_and_trimmed() {
    assert!(matches_keywords("[xx] 番 - 01 (HEVC 1080p)", " 720p , 1080P ", ""));
    assert!(!matches_keywords("[xx] 番 - 01 (HEVC 1080p)", "", "hevc"));
    // empty pieces never match
    assert!(!matches_keywords("[xx] 番 - 01", ",,", ""));
    assert!(matches_keywords("anything", "   ", "  "));
}

#[test]
fn exclude_wins_over_include() {
    assert!(!matches_keywords("[xx] 番 - 01 (1080P 生肉)", "1080P", "生肉"));
}

fn cand(lang: &str) -> Candidate {
    Candidate {
        title: "t".into(),
        magnet: "magnet:?xt=urn:btih:abc".into(),
        fansub: None,
        episode: 1,
        version: 1,
        lang: lang.into(),
        quality: None,
        codec: None,
        source: None,
        link: String::new(),
    }
}

#[test]
fn lang_filter_keeps_positions_in_order() {
    let cands = vec![cand("简中"), cand("繁中"), cand("简中"), cand("未知")];
    assert_eq!(filter_by_lang(&cands, "简中"), vec![0, 2]);
    assert_eq!(filter_by_lang(&cands, "繁中"), vec![1]);
    assert_eq!(filter_by_lang(&cands, "简繁"), Vec::<usize>::new());
    assert_eq!(filter_by_lang(&cands, "ask"), vec![0, 1, 2, 3]);
}
