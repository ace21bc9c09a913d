use utopia::adjudication::{
    after_impact, after_merge, apply_verdict, pair_key, sampled_for_a_person, Step, AUTO_CONF,
};
use utopia::adjudication_run::{Action, Next, Run};
use utopia::error::AppError;
use utopia::governance::{Precedent, Precedents};
use utopia::json::{Json, Member};
use utopia::moment::Moment;
use utopia::review::{
    find_ruling, read_verdict, side, AdjudicationVerdict, ReviewItem, ReviewSide, Ruling,
};
use utopia::single::Single;

fn conf(x: f32) -> Single {
    Single { bits: x.to_bits() }
}

fn entity(id: u128, name: &str, label: Option<&str>, facts: &[&str]) -> ReviewSide {
    ReviewSide {
        id,
        name: name.into(),
        type_label: label.map(str::to_string),
        top_facts: facts.iter().map(|f| f.to_string()).collect(),
    }
}

fn item(id: u128) -> ReviewItem {
    ReviewItem {
        id,
        left: entity(1, "Apple", Some("company"), &["makes phones", "in California"]),
        right: entity(2, "Apple Inc.", None, &[]),
        score: Json::Number("0.9".into()),
    }
}

fn ruling(same: Option<bool>, c: f32) -> Ruling {
    Ruling { same, confidence: conf(c), why: Some("same site".into()) }
}

fn verdict(i: usize, word: &str, confidence: Option<f32>) -> AdjudicationVerdict {
    AdjudicationVerdict {
        i,
        verdict: word.into(),
        confidence: confidence.map(conf),
        why: None,
    }
}

#[test]
fn the_key_is_the_digest_of_both_sides() {
    let precedents = vec!["first".to_string(), "second".to_string()];
    // The digest of
    // "apple inc.|untyped|##apple|company|makes phones;in California##first\nsecond".
    assert_eq!(
        pair_key(&item(5), &precedents),
        "12b7972018c59b95db639885c3cfd4bf4d69e6d284ec8a1d480840c09d181575"
    );
}

#[test]
fn the_key_ignores_sides_and_identifiers() {
    let none: Vec<String> = vec![];
    let a = item(5);
    let mut b = item(6);
    std::mem::swap(&mut b.left, &mut b.right);
    b.left.id = 77;
    assert_eq!(pair_key(&a, &none), pair_key(&b, &none));
    assert_eq!(pair_key(&a, &none).len(), 64);
    assert!(pair_key(&a, &none).chars().all(|c| matches!(c, '0'..='9' | 'a'..='f')));
    let mut c = item(7);
    c.left.name = "APPLE".into();
    assert_eq!(pair_key(&a, &none), pair_key(&c, &none));
    assert_ne!(pair_key(&a, &none), pair_key(&a, &vec!["merged".to_string()]));
    b.left.name = "Apple Ltd.".into();
    assert_ne!(pair_key(&a, &none), pair_key(&b, &none));
}

#[test]
fn one_pair_in_ten_is_for_people() {
    assert!(sampled_for_a_person(&item(0)));
    assert!(sampled_for_a_person(&item(109)));
    assert!(!sampled_for_a_person(&item(10)));
    assert!(!sampled_for_a_person(&item(199)));
    assert!(sampled_for_a_person(&item(u128::MAX / 100 * 100)));
}

#[test]
fn a_sure_ruling_on_a_sampled_pair_goes_to_a_person() {
    match apply_verdict(&item(5), &ruling(Some(true), 0.9), "cached", "0.90") {
        Step::Escalate { review_id, reason } => {
            assert_eq!(review_id, 5);
            assert_eq!(reason, "escalate_sample|same 0.90");
        }
        other => panic!("{other:?}"),
    }
    match apply_verdict(&item(5), &ruling(Some(false), 0.9), "cached", "0.90") {
        Step::Escalate { reason, .. } => assert_eq!(reason, "escalate_sample|different 0.90"),
        other => panic!("{other:?}"),
    }
}

#[test]
fn an_unsure_ruling_goes_to_a_person() {
    for r in [ruling(None, 0.99), ruling(Some(true), 0.79), ruling(Some(false), f32::NAN)] {
        match apply_verdict(&item(50), &r, "adjudicated", "0.79") {
            Step::Escalate { reason, .. } => {
                assert_eq!(reason, "escalate_unsure|adjudicated 0.79")
            }
            other => panic!("{other:?}"),
        }
    }
    assert_eq!(AUTO_CONF, 0.8f32.to_bits());
}

fn m(key: &str, value: Json) -> Member {
    Member { key: key.into(), value }
}

fn t(s: &str) -> Json {
    Json::Text(s.into())
}

#[test]
fn a_sure_difference_closes_the_pair() {
    match apply_verdict(&item(50), &ruling(Some(false), 0.8), "cached", "0.80") {
        Step::Close { review_id, status, reason, audit } => {
            assert_eq!(review_id, 50);
            assert_eq!(status, "kept");
            assert_eq!(reason, "kept_apart|cached 0.80");
            assert_eq!(audit.action, "review.keep");
            assert_eq!(audit.review_id, 50);
            assert_eq!(
                audit.detail,
                Json::Object(vec![
                    m("left", t("Apple")),
                    m("right", t("Apple Inc.")),
                    m("score", Json::Number("0.9".into())),
                    m("confidence", Json::Single(conf(0.8))),
                    m("via", t("cached")),
                    m("why", t("same site")),
                ])
            );
        }
        other => panic!("{other:?}"),
    }
}

#[test]
fn a_merge_is_held_or_made_and_then_closed() {
    let r = ruling(Some(true), 0.95);
    let it = item(50);
    assert!(matches!(
        apply_verdict(&it, &r, "adjudicated", "0.95"),
        Step::CheckImpact { left: 1, right: 2 }
    ));
    match after_impact(&it, Some("violations"), "adjudicated", "0.95") {
        Step::Escalate { reason, .. } => assert_eq!(reason, "escalate_impact|violations"),
        other => panic!("{other:?}"),
    }
    match after_impact(&it, None, "adjudicated", "0.95") {
        Step::Merge { left, right, reason } => {
            assert_eq!((left, right), (1, 2));
            assert_eq!(reason, "auto_merged|adjudicated 0.95");
        }
        other => panic!("{other:?}"),
    }
    match after_merge(&it, &r, "adjudicated", "0.95", Ok(9)) {
        Step::Close { status, reason, audit, .. } => {
            assert_eq!(status, "merged");
            assert_eq!(reason, "auto_merged|adjudicated 0.95");
            assert_eq!(audit.action, "review.merge");
        }
        other => panic!("{other:?}"),
    }
}

#[test]
fn a_pair_that_changed_goes_to_a_person_and_other_errors_fail() {
    let r = ruling(Some(true), 0.95);
    for e in [AppError::NotFound, AppError::Conflict("gone".into())] {
        match after_merge(&item(50), &r, "cached", "0.95", Err(e)) {
            Step::Escalate { reason, .. } => assert_eq!(reason, "escalate_entity_changed"),
            other => panic!("{other:?}"),
        }
    }
    assert!(matches!(
        after_merge(&item(50), &r, "cached", "0.95", Err(AppError::Forbidden)),
        Step::Fail(AppError::Forbidden)
    ));
}

#[test]
fn verdicts_are_read_by_their_number() {
    let said = vec![
        verdict(0, "same", Some(1.5)),
        verdict(2, "different", None),
        verdict(0, "maybe", Some(-0.5)),
        verdict(3, "same", Some(0.25)),
    ];
    let first = find_ruling(&said, 0).unwrap();
    assert_eq!(first.same, None);
    assert_eq!(first.confidence, conf(0.0));
    assert!(find_ruling(&said, 1).is_none());
    let third = find_ruling(&said, 2).unwrap();
    assert_eq!(third.same, Some(false));
    assert_eq!(third.confidence, conf(0.5));
    assert_eq!(find_ruling(&said, 3).unwrap().confidence, conf(0.25));
    assert_eq!(read_verdict(&said[0]).confidence, conf(1.0));
    assert_eq!(read_verdict(&said[0]).same, Some(true));
    assert_eq!(read_verdict(&verdict(0, "Same", None)).same, None);
}

#[test]
fn a_side_without_a_type_is_untyped() {
    let it = item(1);
    assert_eq!(side(&it.left).type_label, "company");
    assert_eq!(side(&it.right).type_label, "untyped");
    assert_eq!(side(&it.left).facts, ["makes phones", "in California"]);
}

#[test]
fn without_a_model_everything_goes_to_people() {
    let mut queue: Vec<u128> = (0..1201).collect();
    let mut escalated: Vec<u128> = Vec::new();
    let mut told = 0;
    let mut lists = 0;
    let (mut run, mut next) = Run::start(None);
    loop {
        next = match next {
            Next::List { limit } => {
                assert_eq!(limit, 500);
                assert_eq!(told, 0);
                lists += 1;
                let n = queue.len().min(500);
                run.pending(queue.drain(..n).map(item).collect())
            }
            Next::Act { actions } => {
                for a in &actions {
                    match a {
                        Action::Escalate { review_id, reason } => {
                            assert_eq!(*reason, "escalate_no_model");
                            escalated.push(*review_id);
                        }
                        Action::Emit => told += 1,
                        other => panic!("{other:?}"),
                    }
                }
                run.acted()
            }
            Next::Finish => break,
            other => panic!("{other:?}"),
        };
    }
    assert_eq!(escalated, (0..1201).collect::<Vec<u128>>());
    assert_eq!(told, 1);
    assert_eq!(lists, 3);
}

#[test]
fn without_a_model_an_empty_queue_is_only_announced() {
    let (mut run, _) = Run::start(None);
    match run.pending(vec![]) {
        Next::Act { actions } => assert!(matches!(actions[..], [Action::Emit])),
        other => panic!("{other:?}"),
    }
    assert!(matches!(run.acted(), Next::Finish));
}

#[test]
fn an_empty_queue_ends_the_run() {
    let (mut run, next) = Run::start(Some("m".into()));
    assert!(matches!(next, Next::List { limit: 12 }));
    assert!(matches!(run.pending(vec![]), Next::Finish));
}

fn precedents() -> Precedents {
    Precedents {
        same_pair: vec![Precedent {
            event_id: 1,
            action: "review.merge".into(),
            left: "a".into(),
            right: "b".into(),
            at: Moment { secs: 0, nanos: 0 },
        }],
        ..Default::default()
    }
}

#[test]
fn a_round_uses_the_cache_and_asks_about_the_rest() {
    let (mut run, _) = Run::start(Some("m".into()));
    match run.pending(vec![item(31), item(32), item(33)]) {
        Next::ReadPrecedents { item } => assert_eq!(item.id, 31),
        other => panic!("{other:?}"),
    }
    let line = "this same pair was merged by a person on 1970-01-01".to_string();
    match run.precedents(&precedents()) {
        Next::LookUp { key } => assert_eq!(key, pair_key(&item(31), &vec![line.clone()])),
        other => panic!("{other:?}"),
    }
    match run.cached(Some((Some(true), conf(0.9)))) {
        Next::Act { actions } => match &actions[..] {
            [Action::Apply { item, ruling, via }] => {
                assert_eq!(item.id, 31);
                assert_eq!(ruling.same, Some(true));
                assert_eq!(ruling.confidence, conf(0.9));
                assert_eq!(ruling.why, None);
                assert_eq!(*via, "cached");
            }
            other => panic!("{other:?}"),
        },
        other => panic!("{other:?}"),
    }
    assert!(matches!(run.acted(), Next::ReadPrecedents { item } if item.id == 32));
    run.precedents(&precedents());
    assert!(matches!(run.cached(None), Next::ReadPrecedents { item } if item.id == 33));
    run.precedents(&Precedents::default());
    match run.cached(None) {
        Next::Ask { pairs } => {
            assert_eq!(pairs.len(), 2);
            assert_eq!(pairs[0].left.name, "Apple");
            assert_eq!(pairs[0].precedents, [line.clone()]);
            assert!(pairs[1].precedents.is_empty());
        }
        other => panic!("{other:?}"),
    }
    match run.answered(&vec![verdict(0, "different", Some(0.9))]) {
        Next::Act { actions } => match &actions[..] {
            [Action::Store { key, same, confidence, model }, Action::Apply { item: applied, via, .. }, Action::Escalate { review_id, reason }, Action::Emit] =>
            {
                assert_eq!(*key, pair_key(&item(32), &vec![line]));
                assert_eq!(*same, Some(false));
                assert_eq!(*confidence, conf(0.9));
                assert_eq!(model, "m");
                assert_eq!(applied.id, 32);
                assert_eq!(*via, "adjudicated");
                assert_eq!(*review_id, 33);
                assert_eq!(*reason, "escalate_no_verdict");
            }
            other => panic!("{other:?}"),
        },
        other => panic!("{other:?}"),
    }
    assert!(matches!(run.acted(), Next::List { limit: 12 }));
}

#[test]
fn a_run_takes_twenty_rounds() {
    let (mut run, mut next) = Run::start(Some("m".into()));
    let mut rounds = 0;
    loop {
        next = match next {
            Next::List { .. } => {
                rounds += 1;
                run.pending(vec![item(31)])
            }
            Next::ReadPrecedents { .. } => run.precedents(&Precedents::default()),
            Next::LookUp { .. } => run.cached(Some((None, conf(0.1)))),
            Next::Ask { .. } => run.answered(&vec![]),
            Next::Act { .. } => run.acted(),
            Next::Finish => break,
        };
    }
    assert_eq!(rounds, 20);
}

#[test]
fn without_a_model_a_full_list_is_followed_by_another() {
    let (mut run, _) = Run::start(None);
    match run.pending((0..500).map(item).collect()) {
        Next::Act { actions } => {
            assert_eq!(actions.len(), 500);
            assert!(!actions.iter().any(|a| matches!(a, Action::Emit)));
        }
        other => panic!("{other:?}"),
    }
    assert!(matches!(run.acted(), Next::List { limit: 500 }));
    match run.pending((0..499).map(item).collect()) {
        Next::Act { actions } => {
            assert_eq!(actions.len(), 500);
            assert!(matches!(actions[499], Action::Emit));
        }
        other => panic!("{other:?}"),
    }
    assert!(matches!(run.acted(), Next::Finish));
}
