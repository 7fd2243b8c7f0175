use btboy::answer::{parse_answer, plan_answer, Answer, AnswerRequest};
use btboy::conversation::{delete_confirmed, id_and_value, id_of, route_callback, Route};
use btboy::models::{Candidate, SubRow};
use btboy::num::{i64_text, parse_i64_str};
use btboy::panels::{delete_keyboard, edit_keyboard};
use btboy::parser::parse_title;
use btboy::scheduler::{decide_fresh, fresh_question, update_question, Decision};

fn cand(v: u32, lang: &str, m: &str) -> Candidate {
    Candidate {
        title: String::new(),
        magnet: m.to_string(),
        fansub: None,
        episode: 7,
        version: v,
        lang: lang.to_string(),
        quality: None,
        codec: None,
        source: None,
        link: String::new(),
    }
}

fn sub() -> SubRow {
    SubRow {
        id: 1,
        rss_url: String::new(),
        title: "番".to_string(),
        start_episode: 1,
        lang_pref: "ask".to_string(),
        include_kw: String::new(),
        exclude_kw: String::new(),
        enabled: true,
        last_fetch_at: None,
        created_at: String::new(),
        backup_rss_url: String::new(),
        total_episodes: None,
        bgm_id: None,
        last_push_at: None,
        last_slack_notified: None,
        gap_notified: None,
        poster_url: None,
    }
}

#[test]
fn numbers_read_back() {
    for n in [0i64, 7, -123, i64::MAX, i64::MIN] {
        let t: String = i64_text(n).into_iter().collect();
        assert_eq!(parse_i64_str(&t), Some(n));
        assert_eq!(t, n.to_string());
    }
}

#[test]
fn question_buttons_read_back() {
    let cands = vec![cand(1, "简中", "a"), cand(2, "简中", "b"), cand(3, "繁中", "c")];
    let (_, rows) = fresh_question("番", 7, &cands, 77);
    for (i, (_, data)) in rows[0].iter().enumerate() {
        assert_eq!(parse_answer(data), Some(AnswerRequest { answer: Answer::Pick, pending_id: 77, index: Some(i) }));
    }
    let answers: Vec<Answer> = rows[1].iter().map(|(_, d)| parse_answer(d).unwrap().answer).collect();
    assert_eq!(answers, vec![Answer::PickAll, Answer::Skip, Answer::Later]);
    let (_, rows) = update_question("番", 7, &cands, -1);
    assert_eq!(parse_answer(&rows[0][2].1), Some(AnswerRequest { answer: Answer::Add, pending_id: -1, index: Some(2) }));
    let answers: Vec<Answer> = rows[1].iter().map(|(_, d)| parse_answer(d).unwrap().answer).collect();
    assert_eq!(answers, vec![Answer::NoAdd, Answer::Later]);
}

#[test]
fn a_choice_decides_the_episode_from_then_on() {
    let cands = vec![cand(1, "简中", "a"), cand(2, "简中", "b"), cand(3, "繁中", "c")];
    let p = plan_answer(Answer::Pick, Some(1), &cands, "番", "ask", 7).unwrap();
    match decide_fresh(&p.remember, &sub(), &cands) {
        Decision::Push(v) => {
            assert_eq!(v.len(), 1);
            assert_eq!(v[0].version, 2);
        }
        other => panic!("{other:?}"),
    }
    let p = plan_answer(Answer::Skip, None, &cands, "番", "ask", 7).unwrap();
    assert!(matches!(decide_fresh(&p.remember, &sub(), &cands), Decision::Skip));
}

#[test]
fn subscription_buttons_lead_back() {
    let k = edit_keyboard(12);
    assert_eq!(route_callback(&k[0][0].1).0, Route::EditStart);
    assert_eq!(id_and_value(&route_callback(&k[0][0].1).1), (12, Some("start_episode".to_string())));
    assert_eq!(route_callback(&k[0][1].1).0, Route::EditLangSelect);
    assert_eq!(id_of(&route_callback(&k[0][1].1).1), 12);
    assert_eq!(id_and_value(&route_callback(&k[1][1].1).1), (12, Some("exclude_kw".to_string())));
    assert_eq!(route_callback(&k[2][0].1).0, Route::Toggle);
    assert_eq!(route_callback(&k[2][1].1).0, Route::Delete);
    let d = delete_keyboard(12);
    assert_eq!(route_callback(&d[0][0].1).0, Route::DeleteConfirm);
    assert_eq!(delete_confirmed(&route_callback(&d[0][0].1).1), (12, true));
    assert_eq!(delete_confirmed(&route_callback(&d[0][1].1).1), (12, false));
}

#[test]
fn codec_and_quality_are_read_in_any_case() {
    let p = parse_title("[x] 某番 - 03 (1080p hevc)");
    assert_eq!(p.codec.as_deref(), Some("HEVC"));
    assert_eq!(p.quality.as_deref(), Some("1080P"));
    let q = parse_title("[x] 某番 - 03 (2160p avc)");
    assert_eq!(q.quality.as_deref(), Some("4K"));
    assert_eq!(q.codec.as_deref(), Some("x264"));
}
