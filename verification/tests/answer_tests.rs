use btboy::answer::{parse_answer, plan_answer, Answer, AnswerError, AnswerRequest};
use btboy::models::Candidate;

fn cand(v: u32, lang: &str) -> Candidate {
    Candidate {
        title: format!("t{v}"),
        magnet: format!("m{v}"),
        fansub: Some("组".to_string()),
        episode: 7,
        version: v,
        lang: lang.to_string(),
        quality: None,
        codec: None,
        source: None,
        link: String::new(),
    }
}

#[test]
fn answers_are_read_from_button_data() {
    assert_eq!(parse_answer("pick:12:1"), Some(AnswerRequest { answer: Answer::Pick, pending_id: 12, index: Some(1) }));
    assert_eq!(parse_answer("pickall:12"), Some(AnswerRequest { answer: Answer::PickAll, pending_id: 12, index: None }));
    assert_eq!(parse_answer("add:-3:0"), Some(AnswerRequest { answer: Answer::Add, pending_id: -3, index: Some(0) }));
    assert_eq!(parse_answer("later:5:x"), Some(AnswerRequest { answer: Answer::Later, pending_id: 5, index: None }));
    assert_eq!(parse_answer("pick:5:1:2"), Some(AnswerRequest { answer: Answer::Pick, pending_id: 5, index: None }));
    assert_eq!(parse_answer("huh:5"), Some(AnswerRequest { answer: Answer::Other, pending_id: 5, index: None }));
    assert_eq!(parse_answer("pick"), None);
    assert_eq!(parse_answer("pick:x:1"), None);
}

#[test]
fn picking_pushes_and_remembers() {
    let cands = vec![cand(1, "简中"), cand(2, "繁中")];
    let p = plan_answer(Answer::Pick, Some(1), &cands, "A&B", "ask", 7).unwrap();
    assert_eq!(p.remember, Some(("繁中".to_string(), Some(2))));
    assert_eq!(p.learn.as_deref(), Some("繁中"));
    assert!(p.drop_pending);
    assert_eq!(p.push.len(), 1);
    assert_eq!(p.push[0].magnet, "m2");
    assert_eq!(p.reply.as_deref(), Some("✅ 已推送 A&amp;B 第07话 (组 · 繁中 · v2)"));
    let p = plan_answer(Answer::Pick, Some(0), &cands, "A", "简中", 7).unwrap();
    assert_eq!(p.learn, None);
}

#[test]
fn adding_does_not_learn() {
    let cands = vec![cand(1, "简中")];
    let p = plan_answer(Answer::Add, Some(0), &cands, "A", "ask", 7).unwrap();
    assert_eq!(p.learn, None);
    assert_eq!(p.remember, Some(("简中".to_string(), Some(1))));
    assert_eq!(p.reply.as_deref(), Some("✅ 已追加 A 第07话 (组 · 简中)"));
}

#[test]
fn bad_choices_are_errors() {
    let cands = vec![cand(1, "简中")];
    assert_eq!(plan_answer(Answer::Pick, None, &cands, "A", "ask", 7).unwrap_err(), AnswerError::BadIndex);
    assert_eq!(plan_answer(Answer::Add, Some(1), &cands, "A", "ask", 7).unwrap_err(), AnswerError::OutOfRange);
}

#[test]
fn other_answers() {
    let cands = vec![cand(1, "简中"), cand(2, "简中")];
    let p = plan_answer(Answer::PickAll, None, &cands, "A&B", "ask", 7).unwrap();
    assert_eq!(p.push.len(), 2);
    assert_eq!(p.remember, None);
    assert_eq!(p.reply.as_deref(), Some("✅ 已全部推送 A&B 第07话 (2 个)"));
    let p = plan_answer(Answer::Skip, None, &cands, "A", "ask", 7).unwrap();
    assert_eq!(p.remember, Some((String::new(), None)));
    assert!(p.push.is_empty());
    assert_eq!(p.reply.as_deref(), Some("⏭️ 已跳过 A 第07话"));
    let p = plan_answer(Answer::Later, None, &cands, "A", "ask", 7).unwrap();
    assert_eq!(p.remember, None);
    assert!(p.drop_pending);
    assert_eq!(p.reply.as_deref(), Some("⏳ 下次拉取会再问"));
    let p = plan_answer(Answer::NoAdd, None, &cands, "A", "ask", 7).unwrap();
    assert_eq!(p.remember, Some((String::new(), None)));
    assert_eq!(p.reply.as_deref(), Some("🚫 已忽略 A 第07话的新版本"));
    let p = plan_answer(Answer::Other, None, &cands, "A", "ask", 7).unwrap();
    assert!(!p.drop_pending && p.reply.is_none() && p.push.is_empty());
}
