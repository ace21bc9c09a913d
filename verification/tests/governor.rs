use utopia::error::AppError;
use utopia::governance::{Precedent, Precedents};
use utopia::governor::{Settlement, Step};
use utopia::governor_run::{after_human_decision, Governor, Next};
use utopia::json::{Json, Member};
use utopia::moment::Moment;
use utopia::review::{AdjudicationVerdict, ReviewItem, ReviewSide, Ruling};
use utopia::single::Single;

fn conf(x: f32) -> Single {
    Single { bits: x.to_bits() }
}

fn side(id: u128, name: &str, label: Option<&str>) -> ReviewSide {
    ReviewSide { id, name: name.into(), type_label: label.map(str::to_string), top_facts: vec![] }
}

fn item(id: u128) -> ReviewItem {
    ReviewItem {
        id,
        left: side(10, "Zhang Wei", Some("person")),
        right: side(20, "Zhang Wei", Some("person")),
        score: Json::Number("1".into()),
    }
}

fn settlement(same: Option<bool>, c: f32) -> Settlement {
    Settlement {
        run_id: 99,
        item: item(5),
        precedents: Precedents::default(),
        ruling: Ruling { same, confidence: conf(c), why: Some("one desk".into()) },
    }
}

#[test]
fn what_is_not_sure_is_proposed() {
    let s = settlement(Some(true), 0.8);
    match s.settle("0.80") {
        Step::Escalate { review_id, reason, decision } => {
            assert_eq!(review_id, 5);
            assert_eq!(reason, "proposed");
            assert_eq!(decision.run_id, 99);
            assert_eq!(decision.target_id, 5);
            assert_eq!(decision.action, "merge");
            assert_eq!(decision.status, "proposed");
            assert_eq!(decision.confidence, conf(0.8));
            assert_eq!(decision.reason.as_deref(), Some("one desk"));
            assert_eq!(decision.precedents, Json::Array(vec![]));
            assert_eq!(decision.merge_id, None);
            assert_eq!(decision.question, None);
            assert_eq!(decision.trace, Json::Array(vec![]));
            assert_eq!(decision.calls, 0);
        }
        other => panic!("{other:?}"),
    }
    match settlement(None, 0.99).settle("0.99") {
        Step::Escalate { decision, .. } => assert_eq!(decision.action, "unsure"),
        other => panic!("{other:?}"),
    }
}

#[test]
fn a_sure_difference_is_applied() {
    match settlement(Some(false), 0.9).settle("0.90") {
        Step::Close { review_id, status, reason, decision, audit } => {
            assert_eq!(review_id, 5);
            assert_eq!(status, "kept");
            assert_eq!(reason, "governed|0.90");
            assert_eq!(decision.action, "keep");
            assert_eq!(decision.status, "applied");
            assert_eq!(audit, "review.keep");
        }
        other => panic!("{other:?}"),
    }
}

#[test]
fn conflicting_types_are_proposed() {
    let mut s = settlement(Some(true), 0.99);
    s.item.right.type_label = Some("company".into());
    assert!(matches!(s.settle("0.99"), Step::Escalate { .. }));
    s.item.right.type_label = None;
    assert!(matches!(s.settle("0.99"), Step::ReadSurvivors { left: 10, right: 20 }));
}

#[test]
fn the_survivors_are_merged_once() {
    let s = settlement(Some(true), 0.9);
    assert!(matches!(s.settle("0.90"), Step::ReadSurvivors { left: 10, right: 20 }));
    match s.after_survivors("0.90", 7, 7) {
        Step::Close { status, reason, decision, audit, .. } => {
            assert_eq!(status, "merged");
            assert_eq!(reason, "governed|0.90");
            assert_eq!(decision.status, "applied");
            assert_eq!(decision.merge_id, None);
            assert_eq!(audit, "review.merge");
        }
        other => panic!("{other:?}"),
    }
    match s.after_survivors("0.90", 7, 8) {
        Step::Merge { left, right, reason } => {
            assert_eq!((left, right), (7, 8));
            assert_eq!(reason, "governed|0.90");
        }
        other => panic!("{other:?}"),
    }
    match s.after_merge("0.90", Ok(123)) {
        Step::Close { decision, .. } => assert_eq!(decision.merge_id, Some(123)),
        other => panic!("{other:?}"),
    }
}

#[test]
fn an_entity_that_changed_leaves_the_pair_undecided() {
    let s = settlement(Some(true), 0.9);
    for e in [AppError::NotFound, AppError::Conflict("gone".into())] {
        match s.after_merge("0.90", Err(e)) {
            Step::Escalate { reason, decision, .. } => {
                assert_eq!(reason, "escalate_entity_changed");
                assert_eq!(decision.action, "unsure");
                assert_eq!(decision.status, "proposed");
                assert_eq!(
                    decision.reason.as_deref(),
                    Some("one side changed while this cluster was being decided")
                );
            }
            other => panic!("{other:?}"),
        }
    }
    assert!(matches!(
        s.after_merge("0.90", Err(AppError::Forbidden)),
        Step::Fail(AppError::Forbidden)
    ));
}

#[test]
fn the_ledger_names_the_decision() {
    let entry = settlement(Some(true), 0.9).audit("review.merge", 0xff);
    assert_eq!(entry.action, "review.merge");
    assert_eq!(entry.review_id, 5);
    let m = |key: &str, value: Json| Member { key: key.into(), value };
    assert_eq!(
        entry.detail,
        Json::Object(vec![
            m("left", Json::Text("Zhang Wei".into())),
            m("right", Json::Text("Zhang Wei".into())),
            m("score", Json::Number("1".into())),
            m("confidence", Json::Single(conf(0.9))),
            m("via", Json::Text("governor".into())),
            m("decision", Json::Text("00000000-0000-0000-0000-0000000000ff".into())),
        ])
    );
}

#[test]
fn nothing_runs_without_the_switch_or_a_model() {
    assert!(matches!(Governor::start(1, 2, false, true).1, Next::Finish));
    assert!(matches!(Governor::start(1, 2, true, false).1, Next::Finish));
    let (mut g, next) = Governor::start(1, 2, true, true);
    assert!(matches!(next, Next::ReadSwitch));
    assert!(matches!(g.switch(false), Next::Finish));
}

fn kept() -> Precedents {
    Precedents {
        same_pair: vec![Precedent {
            event_id: 1,
            action: "review.keep".into(),
            left: "a".into(),
            right: "b".into(),
            at: Moment { secs: 0, nanos: 0 },
        }],
        ..Default::default()
    }
}

#[test]
fn a_cluster_is_asked_and_settled_together() {
    let (mut g, _) = Governor::start(1, 99, true, true);
    assert!(matches!(g.switch(true), Next::ListHead { limit: 1 }));
    match g.head(&vec![item(5)]) {
        Next::ListCluster { head, limit } => {
            assert_eq!(head.id, 5);
            assert_eq!(limit, 11);
        }
        other => panic!("{other:?}"),
    }
    assert!(matches!(g.cluster(vec![item(6)]), Next::ReadPrecedents { item } if item.id == 5));
    assert!(matches!(g.precedents(kept()), Next::ReadPrecedents { item } if item.id == 6));
    match g.precedents(Precedents::default()) {
        Next::Ask { pairs } => {
            assert_eq!(pairs.len(), 2);
            assert_eq!(
                pairs[0].precedents,
                ["this same pair was kept apart by a person on 1970-01-01"]
            );
            assert!(pairs[1].precedents.is_empty());
        }
        other => panic!("{other:?}"),
    }
    let said = vec![AdjudicationVerdict {
        i: 0,
        verdict: "different".into(),
        confidence: Some(conf(0.8)),
        why: Some("two towns".into()),
    }];
    match g.answered(&said) {
        Next::Settle { settlements } => {
            assert_eq!(settlements.len(), 2);
            assert_eq!(settlements[0].run_id, 99);
            assert_eq!(settlements[0].item.id, 5);
            assert_eq!(settlements[0].ruling.same, Some(false));
            assert_eq!(settlements[0].precedents.same_pair.len(), 1);
            assert!(matches!(settlements[0].settle("0.80"), Step::Close { status: "kept", .. }));
            assert_eq!(settlements[1].item.id, 6);
            assert_eq!(settlements[1].ruling.same, None);
            assert_eq!(settlements[1].ruling.confidence, conf(0.0));
            assert!(matches!(settlements[1].settle("0.00"), Step::Escalate { .. }));
        }
        other => panic!("{other:?}"),
    }
    assert!(matches!(g.settled(), Next::ReadSwitch));
    g.switch(true);
    assert!(matches!(g.head(&vec![]), Next::Finish));
}

#[test]
fn a_run_takes_twenty_clusters_and_queues_another() {
    let (mut g, mut next) = Governor::start(0xab, 99, true, true);
    let mut clusters = 0;
    let job = loop {
        next = match next {
            Next::ReadSwitch => g.switch(true),
            Next::ListHead { .. } => g.head(&vec![item(5)]),
            Next::ListCluster { .. } => g.cluster(vec![]),
            Next::ReadPrecedents { .. } => g.precedents(Precedents::default()),
            Next::Ask { .. } => g.answered(&vec![]),
            Next::Settle { .. } => {
                clusters += 1;
                g.settled()
            }
            Next::ListBacklog { limit } => {
                assert_eq!(limit, 1);
                g.backlog(&vec![item(6)])
            }
            Next::Enqueue(job) => break job,
            Next::Finish => panic!("pairs are left"),
        };
    };
    assert_eq!(clusters, 20);
    assert_eq!(job.kind, "govern");
    assert_eq!(
        job.payload,
        Json::Object(vec![Member {
            key: "kb_id".into(),
            value: Json::Text("00000000-0000-0000-0000-0000000000ab".into()),
        }])
    );
}

#[test]
fn a_decision_by_a_person_wakes_the_governor() {
    assert_eq!(after_human_decision(1, Some(true)).unwrap().kind, "govern");
    assert!(after_human_decision(1, Some(false)).is_none());
    assert!(after_human_decision(1, None).is_none());
}
