use utopia::error::AppError;
use utopia::governance::{
    gate, ledger_query, like_pattern, names_of, precedent_query, precedents_json, render_lines,
    settle, settled_by_people, types_of, Family, Gate, Precedent, Precedents, TypePairStats,
    AUTO_CONF, FUSE_REVERTS, FUSE_WINDOW_DAYS, PER_FAMILY, SUPPORTED_CONF, TYPE_PAIR_MIN,
};
use utopia::json::{Json, Member};
use utopia::moment::Moment;
use utopia::review::{ReviewItem, ReviewSide};
use utopia::single::Single;

fn p(action: &str) -> Precedent {
    Precedent {
        event_id: 7,
        action: action.into(),
        left: "a".into(),
        right: "b".into(),
        at: Moment { secs: 1_788_681_600, nanos: 0 },
    }
}

fn stats(merged: i64, kept: i64, reverted: i64) -> Option<TypePairStats> {
    Some(TypePairStats {
        merged,
        kept,
        reverted,
    })
}

fn with_stats(merged: i64, kept: i64, reverted: i64) -> Precedents {
    Precedents {
        type_pair: stats(merged, kept, reverted),
        ..Default::default()
    }
}

fn conf(x: f32) -> Single {
    Single { bits: x.to_bits() }
}

#[test]
fn unsure_and_low_confidence_are_proposed() {
    let none = Precedents::default();
    assert_eq!(gate(None, conf(0.99), false, &none), Gate::Propose);
    assert_eq!(gate(Some(false), conf(0.6), false, &none), Gate::Propose);
    assert_eq!(gate(Some(true), conf(0.84), false, &none), Gate::Propose);
}

#[test]
fn keeping_apart_needs_confidence_only() {
    let none = Precedents::default();
    assert_eq!(gate(Some(false), conf(0.9), false, &none), Gate::Apply);
    assert_eq!(gate(Some(false), conf(0.9), true, &none), Gate::Apply);
}

#[test]
fn the_agent_judges_and_history_moves_the_bar() {
    let none = Precedents::default();
    assert_eq!(gate(Some(true), conf(0.9), false, &none), Gate::Apply);
    assert_eq!(gate(Some(true), conf(0.8), false, &none), Gate::Propose);
    let pair = Precedents {
        same_pair: vec![p("review.merge")],
        ..Default::default()
    };
    assert_eq!(gate(Some(true), conf(0.8), false, &pair), Gate::Apply);
    assert_eq!(gate(Some(true), conf(0.7), false, &pair), Gate::Propose);
    let name = Precedents {
        same_name: vec![p("merge.manual"), p("review.merge")],
        ..Default::default()
    };
    assert_eq!(gate(Some(true), conf(0.8), false, &name), Gate::Apply);
    let mixed = Precedents {
        same_name: vec![p("review.merge"), p("review.keep")],
        ..Default::default()
    };
    assert_eq!(gate(Some(true), conf(0.8), false, &mixed), Gate::Propose);
    assert_eq!(gate(Some(true), conf(0.9), false, &mixed), Gate::Apply);
    assert_eq!(
        gate(Some(true), conf(0.8), false, &with_stats(6, 2, 0)),
        Gate::Apply
    );
    assert_eq!(
        gate(Some(true), conf(0.8), false, &with_stats(3, 1, 0)),
        Gate::Propose,
        "a habit needs {TYPE_PAIR_MIN} decisions"
    );
    assert_eq!(
        gate(Some(true), conf(0.8), false, &with_stats(6, 2, 1)),
        Gate::Propose,
        "a pair of types with a revert has no habit of merging"
    );
    assert_eq!(gate(Some(false), conf(0.8), false, &none), Gate::Propose);
    let kept = Precedents {
        same_pair: vec![p("review.keep")],
        ..Default::default()
    };
    assert_eq!(gate(Some(false), conf(0.8), false, &kept), Gate::Apply);
    assert_eq!(
        gate(Some(false), conf(0.8), false, &with_stats(1, 8, 0)),
        Gate::Apply
    );
}

#[test]
fn a_pair_people_decided_skips_the_agent() {
    let none = Precedents::default();
    assert_eq!(
        settled_by_people("Apple", "Apple Inc.", &none, Some(true)),
        Some(true)
    );
    assert_eq!(
        settled_by_people("Zhang Wei", "Zhang Wei", &none, Some(false)),
        Some(false)
    );
    assert_eq!(settled_by_people("Apple", "Apple Inc.", &none, None), None);
    let merged = Precedents {
        same_pair: vec![p("review.merge"), p("merge.manual")],
        ..Default::default()
    };
    assert_eq!(
        settled_by_people("Apple", "Apple Inc.", &merged, None),
        Some(true)
    );
    assert_eq!(
        settled_by_people("Zhang Wei", "Zhang Wei", &merged, None),
        None,
        "namesakes: the names do not say who is who"
    );
    let mixed = Precedents {
        same_pair: vec![p("review.merge"), p("review.keep")],
        ..Default::default()
    };
    assert_eq!(settled_by_people("Apple", "Apple Inc.", &mixed, None), None);
    let reverted = Precedents {
        same_pair: vec![p("review.merge")],
        reverts: vec![p("merge.revert")],
        ..Default::default()
    };
    assert_eq!(
        settled_by_people("Apple", "Apple Inc.", &reverted, Some(true)),
        None
    );
}

#[test]
fn hard_rules_come_first() {
    let pair = Precedents {
        same_pair: vec![p("review.merge")],
        ..Default::default()
    };
    assert_eq!(
        gate(Some(true), conf(0.99), true, &pair),
        Gate::Propose,
        "conflicting types are not merged"
    );
    let reverted = Precedents {
        same_pair: vec![p("review.merge")],
        reverts: vec![p("merge.revert")],
        ..Default::default()
    };
    assert_eq!(gate(Some(true), conf(0.99), false, &reverted), Gate::Propose);
    assert_eq!(gate(Some(false), conf(0.99), false, &reverted), Gate::Propose);
    let kept = Precedents {
        same_pair: vec![p("review.keep")],
        ..Default::default()
    };
    assert_eq!(
        gate(Some(true), conf(0.99), false, &kept),
        Gate::Propose,
        "people kept the pair apart"
    );
    let merged = Precedents {
        same_pair: vec![p("review.merge")],
        ..Default::default()
    };
    assert_eq!(
        gate(Some(false), conf(0.99), false, &merged),
        Gate::Propose,
        "people merged the pair"
    );
}

#[test]
fn the_bars_are_the_numbers_they_stand_for() {
    assert_eq!(AUTO_CONF, 0.85f32.to_bits());
    assert_eq!(SUPPORTED_CONF, 0.75f32.to_bits());
    assert_eq!(TYPE_PAIR_MIN, 5);
    assert_eq!(PER_FAMILY, 8);
    assert_eq!(FUSE_WINDOW_DAYS, 7);
    assert_eq!(FUSE_REVERTS, 2);
}

#[test]
fn a_confidence_on_the_bar_is_enough_and_a_nan_never_is() {
    let none = Precedents::default();
    assert_eq!(gate(Some(true), conf(0.85), false, &none), Gate::Apply);
    assert_eq!(gate(Some(true), conf(f32::NAN), false, &none), Gate::Propose);
    assert_eq!(gate(Some(true), conf(-0.9), false, &none), Gate::Propose);
    assert_eq!(gate(Some(true), conf(0.75), false, &with_stats(5, 0, 0)), Gate::Apply);
}

#[test]
fn what_counts_as_a_merge() {
    assert!(p("review.merge").merged());
    assert!(p("merge.manual").merged());
    assert!(!p("review.keep").merged());
    assert!(!p("merge.revert").merged());
    assert!(with_stats(i64::MAX, i64::MAX, 0).supports(true));
    assert!(!with_stats(3, 3, 0).supports(false));
    assert!(with_stats(3, 3, 0).supports(true));
    let t = TypePairStats::default();
    assert_eq!((t.merged, t.kept, t.reverted), (0, 0, 0));
}

#[test]
fn precedents_are_written_as_lines() {
    let all = Precedents {
        same_pair: vec![p("review.merge"), p("review.keep")],
        same_name: vec![p("merge.manual")],
        type_pair: stats(3, 2, 1),
        reverts: vec![p("merge.revert")],
    };
    assert_eq!(
        render_lines(&all),
        [
            "this same pair was merged by a person on 2026-09-06",
            "this same pair was kept apart by a person on 2026-09-06",
            "\"a\" against \"b\" was merged by a person on 2026-09-06",
            "for pairs of these two types in this base, people merged 3, kept 2 apart, and later reverted 1 merge(s)",
            "a merge of \"a\" into \"b\" was reverted by a person on 2026-09-06",
        ]
    );
    assert!(render_lines(&with_stats(0, 0, 3)).is_empty());
    assert!(render_lines(&Precedents::default()).is_empty());
}

fn m(key: &str, value: Json) -> Member {
    Member { key: key.into(), value }
}

fn t(s: &str) -> Json {
    Json::Text(s.into())
}

#[test]
fn precedents_are_recorded_with_their_family() {
    let mut x = p("review.merge");
    x.event_id = 0x0192_0000_abcd_7000_8000_0000_0000_00ff;
    let all = Precedents {
        same_pair: vec![x],
        same_name: vec![p("review.keep")],
        type_pair: stats(3, 2, 1),
        reverts: vec![p("merge.revert")],
    };
    let Json::Array(entries) = precedents_json(&all) else { panic!("an array") };
    assert_eq!(entries.len(), 4);
    assert_eq!(
        entries[0],
        Json::Object(vec![
            m("family", t("same_pair")),
            m("event_id", t("01920000-abcd-7000-8000-0000000000ff")),
            m("action", t("review.merge")),
            m("left", t("a")),
            m("right", t("b")),
            m("at", t("2026-09-06T08:00:00Z")),
        ])
    );
    let family = |e: &Json| match e {
        Json::Object(members) => members[0].value.copy(),
        _ => panic!("an object"),
    };
    assert_eq!(family(&entries[1]), t("same_name"));
    assert_eq!(family(&entries[2]), t("revert"));
    assert_eq!(
        entries[3],
        Json::Object(vec![
            m("family", t("type_pair")),
            m("merged", Json::Number("3".into())),
            m("kept", Json::Number("2".into())),
            m("reverted", Json::Number("1".into())),
        ])
    );
}

fn side(id: u128, name: &str) -> ReviewSide {
    ReviewSide { id, name: name.into(), type_label: None, top_facts: vec![] }
}

fn item() -> ReviewItem {
    ReviewItem { id: 1, left: side(10, "OpenAI"), right: side(20, "ÉCOLE"), score: Json::Null }
}

#[test]
fn names_are_searched_in_lower_case() {
    assert_eq!(names_of(&item()), ("openai".to_string(), "école".to_string()));
    assert_eq!(like_pattern("  Zhang Wei "), "%zhang wei%");
    assert_eq!(like_pattern(""), "%%");
}

#[test]
fn both_sides_need_a_type() {
    let x = item();
    assert_eq!(types_of(&vec![(20, Some(2)), (10, Some(1))], &x), Some((1, 2)));
    assert_eq!(types_of(&vec![(20, Some(2)), (10, None)], &x), None);
    assert_eq!(types_of(&vec![(20, Some(2))], &x), None);
    assert_eq!(types_of(&vec![(10, Some(1)), (10, Some(9)), (20, Some(2))], &x), Some((1, 2)));
}

#[test]
fn the_ledger_is_asked_for_decisions_by_people() {
    let pair = precedent_query(Family::SamePair);
    assert!(pair.starts_with("SELECT id AS event_id, action, COALESCE(detail->>'left', detail->>'source', '') AS \"left\""));
    assert!(pair.contains("WHERE kb_id = $1 AND actor_id IS NOT NULL AND action IN ('review.merge', 'review.keep', 'merge.manual') AND ((lower("));
    assert!(pair.ends_with(" = $2)) ORDER BY created_at DESC LIMIT $4"));
    let name = precedent_query(Family::SameName);
    assert!(name.contains(" IN ($2, $3)) AND NOT (("));
    let reverts = precedent_query(Family::Reverts);
    assert!(reverts.contains("WHERE kb_id = $1 AND actor_id IS NOT NULL AND action = 'merge.revert' AND (lower("));
    let search = ledger_query();
    assert!(search.contains("actor_id IS NOT NULL"));
    assert!(search.ends_with(" LIKE $2) ORDER BY created_at DESC LIMIT $3"));
}

#[test]
fn an_answered_decision_is_not_answered_again() {
    assert!(settle(1).is_ok());
    match settle(0) {
        Err(AppError::Conflict(why)) => {
            assert_eq!(why, "this decision has already been answered")
        }
        other => panic!("{other:?}"),
    }
}
