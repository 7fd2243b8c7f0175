use btboy::models::{Lang, ParsedTitle};
use btboy::parser::{parse_title, title_from, TitleMatches};

fn ep(p: &ParsedTitle) -> Option<u32> {
    p.episode
}

#[test]
fn parse_simple() {
    let p = parse_title("[Lilith-Raws] 败犬女主太多了！ - 07 (Baha 1080P 简中 内嵌)");
    assert_eq!(ep(&p), Some(7));
    assert_eq!(p.version, 1);
    assert_eq!(p.lang, Lang::Simp);
    assert_eq!(p.quality.as_deref(), Some("1080P"));
    assert_eq!(p.anime, "败犬女主太多了！");
    assert_eq!(p.fansub.as_deref(), Some("Lilith-Raws"));
}

#[test]
fn parse_v2() {
    let p = parse_title("[A-Raws] 我的推是反派大小姐 - 07v2 (1080P HEVC)");
    assert_eq!(ep(&p), Some(7));
    assert_eq!(p.version, 2);
    assert_eq!(p.lang, Lang::Unknown);
    assert_eq!(p.codec.as_deref(), Some("HEVC"));
}

#[test]
fn parse_bilingual() {
    let p = parse_title("[桜都字幕组] 我的推是反派大小姐 - 07 (720P 简繁日双语)");
    assert_eq!(ep(&p), Some(7));
    assert_eq!(p.lang, Lang::Bilingual);
}

#[test]
fn parse_trad() {
    let p = parse_title("[MingY] 葬送的芙莉莲 - 第08话 (1080P 繁體中文)");
    assert_eq!(ep(&p), Some(8));
    assert_eq!(p.lang, Lang::Trad);
}

#[test]
fn parse_season_ep() {
    let p = parse_title("[xx] 间谍过家家 S01E07 (1080P 简中)");
    assert_eq!(ep(&p), Some(7));
}

#[test]
fn parse_half_episode() {
    let p = parse_title("[xxx] 某番 - 07.5 (1080P)");
    assert_eq!(ep(&p), Some(7));
    assert!(p.is_half);
    assert!(!p.is_collection);
}

#[test]
fn parse_cn_half() {
    let p = parse_title("[xxx] 某番 第13.5话 (1080P 简中)");
    assert_eq!(ep(&p), Some(13));
    assert!(p.is_half);
}

#[test]
fn parse_collection() {
    let p = parse_title("[xxx] 某番 - 01-12 合集 (1080P)");
    assert!(p.is_collection);
    assert_eq!(ep(&p), None);
}

#[test]
fn parse_special() {
    let p = parse_title("[xxx] 某番 - NC (1080P)");
    assert!(p.is_special);
    assert_eq!(ep(&p), None);
}

#[test]
fn parse_year_not_episode() {
    let p = parse_title("[rec] 某老番 (2024 BDRip 1080P 简中)");
    assert_eq!(ep(&p), None);
}

#[test]
fn parse_cn_with_v2() {
    let p = parse_title("[sub] 某番 第07话v2 (1080P 简体)");
    assert_eq!(ep(&p), Some(7));
    assert_eq!(p.version, 2);
}

#[test]
fn parse_no_episode() {
    let p = parse_title("[sub] 某番全集 (1080P)");
    assert!(p.is_collection);
}

#[test]
fn full_01_07_titles_parse() {
    let sources = [("ABEMA", "MKV"), ("CR", "MKV"), ("Baha", "MP4")];
    for ep in 1..=7 {
        for (src, ext) in sources {
            let title = format!(
                "[黒ネズミたち] 再見菈菈 / Sayonara Lara - {ep:02} ({src} 1920x1080 AVC AAC {ext})"
            );
            let p = parse_title(&title);
            assert_eq!(p.episode, Some(ep), "title={title}");
            assert_eq!(p.source.as_deref(), Some(src), "title={title}");
            assert_eq!(p.anime, "再見菈菈 / Sayonara Lara", "title={title}");
        }
    }
}

#[test]
fn parse_keeps_trimmed_raw_and_codec() {
    let p = parse_title("  [x] 某番 - 03 (1920x1080 AVC)  ");
    assert_eq!(p.raw, "[x] 某番 - 03 (1920x1080 AVC)");
    assert_eq!(p.codec.as_deref(), Some("x264"));
    assert_eq!(p.quality.as_deref(), Some("1080P"));
    assert_eq!(p.anime, "某番");
}

#[test]
fn parse_without_fansub() {
    let p = parse_title("某番 - 11 [4K]");
    assert_eq!(p.fansub, None);
    assert_eq!(p.episode, Some(11));
    assert_eq!(p.quality.as_deref(), Some("4K"));
    assert_eq!(p.anime, "某番");
}

#[test]
fn source_spellings_are_unified() {
    let p = parse_title("[x] 某番 - 02 (Crunchyroll 1080P)");
    assert_eq!(p.source.as_deref(), Some("CR"));
    let q = parse_title("[x] 某番 - 02 (1080P)");
    assert_eq!(q.source, None);
}

fn g(pre: &str, m: &str) -> Option<(String, String)> {
    Some((pre.to_string(), m.to_string()))
}

fn no_matches() -> TitleMatches {
    TitleMatches {
        quality: None,
        codec: None,
        source: None,
        collection: None,
        special: None,
        ep_cn_half: None,
        ep_cn: None,
        ep_season: None,
        ep_dash: vec![],
        ep_ver: None,
    }
}

#[test]
fn title_read_from_given_matches() {
    let raw = "[Sub] Name - 07v2 (1080P)";
    let fansub = Some(vec![g("", "[Sub] "), g("[", "Sub")]);
    let mut found = no_matches();
    found.quality = Some(vec![g("Name - 07v2 (", "1080P"), g("Name - 07v2 (", "1080P")]);
    found.ep_dash = vec![vec![g("Name ", "- 07v2"), g("Name - ", "07"), None, g("Name - 07v", "2")]];
    let p = title_from(raw, &fansub, &found, &None);
    assert_eq!(p.fansub.as_deref(), Some("Sub"));
    assert_eq!(p.anime, "Name");
    assert_eq!(p.episode, Some(7));
    assert_eq!(p.version, 2);
    assert_eq!(p.quality.as_deref(), Some("1080P"));
    assert!(!p.is_collection && !p.is_half && !p.is_special);
    assert_eq!(p.raw, raw);
    let q = parse_title(raw);
    assert_eq!((q.fansub, q.anime, q.episode, q.version, q.quality), (p.fansub, p.anime, p.episode, p.version, p.quality));
}

#[test]
fn a_dash_match_followed_by_text_is_no_episode() {
    let raw = "Show - 2024x";
    let mut found = no_matches();
    found.ep_dash = vec![vec![g("Show ", "- 202"), g("Show - ", "202"), None, None]];
    let p = title_from(raw, &None, &found, &None);
    assert_eq!(p.episode, None);
    assert_eq!(p.anime, "Show - 2024x");
    assert_eq!(p.version, 1);
}

#[test]
fn a_collection_read_from_given_matches() {
    let raw = "Show 01-12 (Web)";
    let mut found = no_matches();
    found.collection = Some(vec![g("Show ", "01-12")]);
    found.ep_dash = vec![vec![g("Show 01", "-12"), g("Show 01-", "12"), None, None]];
    let paren = Some(vec![g("Show 01-12", " (Web)")]);
    let p = title_from(raw, &None, &found, &paren);
    assert!(p.is_collection);
    assert_eq!(p.anime, "Show 01-12");
    assert_eq!(p.episode, None);
    assert_eq!(p.fansub, None);
}
