use utopia::extraction::{ExtractedEntity, ExtractedFact, Extraction};
use utopia::json::{Json, Member};
use utopia::normalize::{
    contains_name, is_no_value, is_unit_key, norm, normalize_facts, qualifier_values,
    ungrounded_tail, Normalization,
};
use utopia::single::Single;

fn fact(subject: &str, predicate: &str, object: Option<&str>, quote: &str) -> ExtractedFact {
    ExtractedFact {
        subject: subject.into(),
        subject_ref: None,
        predicate: predicate.into(),
        object: object.map(str::to_string),
        object_ref: None,
        value: None,
        qualifiers: None,
        valid_from: None,
        valid_to: None,
        confidence: Some(Single { bits: 0.9f32.to_bits() }),
        quote: Some(quote.into()),
        subject_span: Some(subject.into()),
        object_span: object.map(str::to_string),
    }
}
fn valued(subject: &str, predicate: &str, value: &str, quote: &str) -> ExtractedFact {
    let mut f = fact(subject, predicate, None, quote);
    f.value = Some(Json::Text(value.into()));
    f
}
fn entity(id: &str, name: &str) -> ExtractedEntity {
    ExtractedEntity {
        local_id: Some(id.into()),
        name: name.into(),
        type_key: "organization".into(),
        specific_type: None,
    }
}
fn quals(pairs: &[(&str, &str)]) -> Vec<Member> {
    pairs
        .iter()
        .map(|(k, v)| Member { key: k.to_string(), value: Json::Text(v.to_string()) })
        .collect()
}
fn run(
    entities: Vec<ExtractedEntity>,
    facts: Vec<ExtractedFact>,
) -> (Extraction, Vec<Normalization>) {
    let mut x = Extraction {
        entities,
        facts,
        skipped_entities: 0,
        skipped_facts: 0,
        truncated: false,
    };
    let n = normalize_facts(&mut x);
    (x, n)
}
fn value_of(f: &ExtractedFact) -> &str {
    match f.value.as_ref().unwrap() {
        Json::Text(s) => s.as_str(),
        other => panic!("not a text: {other:?}"),
    }
}

#[test]
fn a_tail_the_quote_does_not_contain_is_not_the_value() {
    let (x, n) = run(
        vec![entity("e1", "NVIDIA")],
        vec![
            valued(
                "NVIDIA",
                "net_cash_used",
                "(6,176) for three months ended July 27, 2025",
                "Net cash used in financing activities (6,176)",
            ),
            valued(
                "NVIDIA",
                "经营现金流",
                "12,345 截至2025年7月27日止三个月",
                "经营活动产生的现金流量净额 | 12,345",
            ),
            valued(
                "NVIDIA",
                "revenue",
                "$89.0 billion, up 18% from the previous quarter",
                "Second-quarter revenue was $89.0 billion",
            ),
        ],
    );
    assert_eq!(value_of(&x.facts[0]), "(6,176)");
    assert_eq!(value_of(&x.facts[1]), "12,345");
    assert_eq!(value_of(&x.facts[2]), "$89.0 billion");
    assert!(
        matches!(&n[0], Normalization::ValueTrimmed { dropped, .. } if dropped == "for three months ended July 27, 2025")
    );
}


#[test]
fn a_value_grounded_in_the_quote_is_left_alone() {
    let (x, n) = run(
        vec![entity("e1", "Tench Coxe")],
        vec![
            valued(
                "NVIDIA",
                "operating_expenses",
                "$9.2 billion",
                "expected to be approximately $9.2 billion and $9.0 billion",
            ),
            valued(
                "Tench Coxe",
                "votes_for",
                "15,411,252,412 shares",
                "Number of shares For | 15,411,252,412",
            ),
            valued("Vega", "amount", "$5 billion", "invested 5 billion dollars"),
            valued(
                "NVIDIA",
                "net_income",
                "53,954 million USD",
                "Net income | $ | 53,954",
            ),
            valued(
                "SB Energy",
                "capacity",
                "10 gigawatts",
                "at least 10 GW of new generation",
            ),
            valued(
                "Jensen Huang",
                "job_title",
                "founder and CEO",
                "Jensen Huang, founder and chief executive officer",
            ),
        ],
    );
    let got: Vec<&str> = x.facts.iter().map(value_of).collect();
    assert_eq!(
        got,
        [
            "$9.2 billion",
            "15,411,252,412 shares",
            "$5 billion",
            "53,954 million USD",
            "10 gigawatts",
            "founder and CEO"
        ]
    );
    assert!(n.is_empty(), "{n:?}");
}


#[test]
fn a_dash_is_no_value() {
    let (x, n) = run(
        vec![entity("e1", "NVIDIA")],
        vec![
            valued("NVIDIA", "dividend", "—", "Dividends | —"),
            valued("NVIDIA", "dividend", " – ", "Dividends | –"),
            valued("NVIDIA", "dividend", "$0.01", "Dividends | $0.01"),
        ],
    );
    assert_eq!(x.facts.len(), 1);
    assert_eq!(
        n.iter()
            .filter(|v| matches!(v, Normalization::NoValue { .. }))
            .count(),
        2
    );
}

#[test]
fn figures_on_an_edge_with_no_other_end_land_on_the_subject() {
    let mut f = fact(
        "Tench Coxe",
        "vote_result",
        None,
        "Number of shares For | 15,411,252,412",
    );
    f.qualifiers = Some(quals(&[
        ("for", "15,411,252,412"),
        ("against", "1,399,727,580"),
        ("unit", "shares"),
    ]));
    let (x, n) = run(vec![entity("e1", "Tench Coxe")], vec![f]);
    let mut got: Vec<(String, String)> = x
        .facts
        .iter()
        .map(|f| (f.predicate.clone(), value_of(f).to_string()))
        .collect();
    got.sort();
    assert_eq!(
        got,
        [
            (
                "vote_result.against".to_string(),
                "1,399,727,580".to_string()
            ),
            ("vote_result.for".to_string(), "15,411,252,412".to_string()),
        ]
    );
    assert_eq!(
        n,
        vec![Normalization::QualifiersWithoutObject {
            predicate: "vote_result".into(),
            values: 2
        }]
    );
}

#[test]
fn a_time_object_becomes_the_validity_and_leaves_no_node() {
    let mut margin = fact(
        "NVIDIA",
        "gross_margin",
        Some("2026-06"),
        "Gross margin | 75.0%",
    );
    margin.object_ref = Some("e7".into());
    margin.qualifiers = Some(quals(&[("percentage", "75.0%")]));
    let mut bare = fact("NVIDIA", "reported_in", Some("2026"), "reported in 2026");
    bare.object_ref = Some("e8".into());
    let (x, n) = run(
        vec![
            entity("e1", "NVIDIA"),
            entity("e7", "2026-06"),
            entity("e8", "2026"),
        ],
        vec![margin, bare],
    );
    assert_eq!(x.facts.len(), 1);
    assert_eq!(x.facts[0].predicate, "gross_margin");
    assert_eq!(value_of(&x.facts[0]), "75.0%");
    assert_eq!(x.facts[0].valid_from.as_deref(), Some("2026-06"));
    let names: Vec<&str> = x.entities.iter().map(|e| e.name.as_str()).collect();
    assert_eq!(names, ["NVIDIA"]);
    assert_eq!(
        n.iter()
            .filter(|v| matches!(v, Normalization::OrphanDeclaration { .. }))
            .count(),
        2
    );
}


#[test]
fn a_time_subject_is_not_placed() {
    let f = valued(
        "2026-07-26",
        "revenue",
        "$89.0 billion",
        "revenue was $89.0 billion",
    );
    let (x, n) = run(vec![entity("e1", "NVIDIA")], vec![f]);
    assert!(x.facts.is_empty());
    assert!(matches!(&n[0], Normalization::TimeAsSubject { .. }));
}

#[test]
fn a_period_name_that_is_not_a_date_is_not_second_guessed() {
    let mut f = fact(
        "NVIDIA",
        "gross_margin_for_period",
        Some("Q2 FY27"),
        "Gross margin | 75.0 | %",
    );
    f.qualifiers = Some(quals(&[("percentage", "75.0%")]));
    let (x, n) = run(
        vec![entity("e1", "NVIDIA"), entity("e7", "Q2 FY27")],
        vec![f],
    );
    assert_eq!(x.facts.len(), 1);
    assert_eq!(x.entities.len(), 2);
    assert!(n.is_empty());
}

#[test]
fn a_description_beside_its_head_goes_with_its_declaration() {
    let quote = "NVIDIA to invest $1.5B in SB Energy now to support SB Energy\u{2019}s growth and commitments to the Ohio community";
    let mut head = fact("NVIDIA", "invested_in", Some("SB Energy"), quote);
    head.object_ref = Some("e2".into());
    let mut desc = fact(
        "NVIDIA",
        "invested_in",
        Some("SB Energy's growth and commitments to the Ohio community"),
        quote,
    );
    desc.object_ref = Some("e6".into());
    let (x, n) = run(
        vec![
            entity("e1", "NVIDIA"),
            entity("e2", "SB Energy"),
            entity(
                "e6",
                "SB Energy's growth and commitments to the Ohio community",
            ),
        ],
        vec![head, desc],
    );
    assert_eq!(x.facts.len(), 1);
    assert_eq!(x.facts[0].object.as_deref(), Some("SB Energy"));
    assert!(x
        .entities
        .iter()
        .all(|e| e.local_id.as_deref() != Some("e6")));
    assert!(n.iter().any(
        |v| matches!(v, Normalization::ObjectDescribesDeclared { head, .. } if head == "SB Energy")
    ));
}

#[test]
fn a_description_is_recognised_without_a_possessive() {
    let quote = "英伟达向星辰能源投资15亿美元，支持星辰能源在俄亥俄的发展";
    let (x, _) = run(
        vec![
            entity("e1", "英伟达"),
            entity("e2", "星辰能源"),
            entity("e3", "星辰能源在俄亥俄的发展"),
        ],
        vec![
            fact("英伟达", "投资", Some("星辰能源"), quote),
            fact("英伟达", "投资", Some("星辰能源在俄亥俄的发展"), quote),
        ],
    );
    assert_eq!(x.facts.len(), 1);
    assert_eq!(x.entities.len(), 2);
}

#[test]
fn a_name_that_contains_another_without_a_sibling_edge_is_left_alone() {
    let quote = "Sam Altman was removed by OpenAI's board of directors";
    let (x, n) = run(
        vec![
            entity("e1", "Sam Altman"),
            entity("e2", "OpenAI"),
            entity("e3", "OpenAI's board of directors"),
        ],
        vec![fact(
            "Sam Altman",
            "removed_by",
            Some("OpenAI's board of directors"),
            quote,
        )],
    );
    assert_eq!(x.facts.len(), 1);
    assert_eq!(x.entities.len(), 3);
    assert!(n.is_empty());
}

#[test]
fn texts_are_compared_without_case_and_spacing() {
    assert_eq!(norm("  Net   Income\n(GAAP) "), "net income (gaap)");
    assert_eq!(norm("ÀB\u{3000}C"), "àb c");
    assert_eq!(norm(""), "");
    for s in [" ΑΣ  Σ\tΟΔΟΣ ", "İ I ı", "ǅ  ß ﬁ", "  Net   Income"] {
        let once = norm(s);
        assert_eq!(norm(&once), once);
        let words: Vec<String> = s.split_whitespace().map(str::to_lowercase).collect();
        assert_eq!(once.split_whitespace().collect::<Vec<_>>(), words);
    }
}

#[test]
fn a_value_of_signs_alone_says_nothing() {
    assert!(is_no_value("—"));
    assert!(is_no_value(" - "));
    assert!(is_no_value(""));
    assert!(!is_no_value("$0"));
    assert!(!is_no_value("无"));
}

#[test]
fn the_tail_is_cut_at_the_last_grounded_place() {
    assert_eq!(
        ungrounded_tail("12 apples in 2025", "there were 12 apples"),
        Some(("12 apples", "in 2025"))
    );
    assert_eq!(ungrounded_tail("12 apples", "there were 12 apples"), None);
    assert_eq!(ungrounded_tail("12 apples in autumn", "there were 12 apples"), None);
    assert_eq!(ungrounded_tail("12 apples in 2025", ""), None);
    assert_eq!(ungrounded_tail("12 apples in 2025", " \u{3000}\n"), None);
}

#[test]
fn units_are_no_values_of_their_own() {
    for key in ["unit", " Currency ", "币种", "货币", "单位"] {
        assert!(is_unit_key(key), "{key}");
    }
    assert!(!is_unit_key("amount"));
    assert!(!is_unit_key("units"));
    let mut f = fact("A", "p", None, "q");
    f.qualifiers = Some(quals(&[("amount", "12"), ("unit", "kg")]));
    let got = qualifier_values(&f);
    assert_eq!(got.len(), 1);
    assert_eq!(got[0].key, "amount");
}

#[test]
fn a_name_stands_free_inside_another() {
    assert!(contains_name("SB Energy's growth", "SB Energy"));
    assert!(!contains_name("SB Energy", "SB Energy"));
    assert!(!contains_name("Energystar", "Energy"));
    assert!(contains_name("星辰能源在俄亥俄的发展", "星辰能源"));
}

#[test]
fn an_extraction_without_a_note_is_left_as_it_is() {
    let (x, n) = run(
        vec![entity("e1", "NVIDIA")],
        vec![valued("NVIDIA", "revenue", "$89.0 billion", "revenue was $89.0 billion")],
    );
    assert!(n.is_empty());
    assert_eq!(x.facts.len(), 1);
    assert_eq!(value_of(&x.facts[0]), "$89.0 billion");
    assert_eq!(x.facts[0].confidence.unwrap().bits, 0.9f32.to_bits());
    assert_eq!(x.entities.len(), 1);
}

#[test]
fn a_time_with_a_zone_is_a_time() {
    let (x, n) = run(
        vec![],
        vec![valued("2026-07-26T08:00:00+08:00", "revenue", "$1", "revenue was $1")],
    );
    assert!(x.facts.is_empty());
    assert!(matches!(&n[0], Normalization::TimeAsSubject { .. }));
    let (x, n) = run(
        vec![],
        vec![valued("2026-13", "revenue", "$1", "revenue was $1")],
    );
    assert_eq!(x.facts.len(), 1);
    assert!(n.is_empty());
}

#[test]
fn an_entity_that_nothing_ever_mentioned_stays() {
    let (x, n) = run(
        vec![entity("e1", "NVIDIA"), entity("e2", "Silent")],
        vec![valued("NVIDIA", "dividend", "—", "Dividends | —")],
    );
    let names: Vec<&str> = x.entities.iter().map(|e| e.name.as_str()).collect();
    assert_eq!(names, ["Silent"]);
    assert!(n.iter().any(|v| matches!(v, Normalization::OrphanDeclaration { name } if name == "NVIDIA")));
}

#[test]
fn a_second_pass_changes_nothing() {
    let quote = "NVIDIA to invest $1.5B in SB Energy now to support SB Energy's growth";
    let (mut x, n) = run(
        vec![
            entity("e1", "NVIDIA"),
            entity("e2", "SB Energy"),
            entity("e3", "SB Energy's growth"),
            entity("e4", "2026"),
        ],
        vec![
            fact("NVIDIA", "invested_in", Some("SB Energy"), quote),
            fact("NVIDIA", "invested_in", Some("SB Energy's growth"), quote),
            fact("NVIDIA", "reported_in", Some("2026"), "reported in 2026"),
            valued("NVIDIA", "revenue", "$1.5B in 2026", "invest $1.5B"),
            valued("NVIDIA", "dividend", "—", "Dividends | —"),
        ],
    );
    assert_eq!(n.len(), 6);
    let before = format!("{x:?}");
    assert!(normalize_facts(&mut x).is_empty());
    assert_eq!(format!("{x:?}"), before);
}
