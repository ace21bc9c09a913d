use utopia::json::{Json, Member};
use utopia::names::{
    for_entity, has_name_in, has_name_like, is_name_attribute, not_a_name, recorded_value,
    RelationType, KNOWN_AS,
};

#[test]
fn only_the_built_in_attribute_is_for_names() {
    let r = |key: &str, builtin| RelationType { key: key.into(), builtin };
    assert!(is_name_attribute(&r(KNOWN_AS, true)));
    assert!(!is_name_attribute(&r(KNOWN_AS, false)));
    assert!(!is_name_attribute(&r("is_a", true)));
    assert_eq!(KNOWN_AS, "known_as");
}

#[test]
fn names_are_found_by_fragments() {
    assert_eq!(
        has_name_in("e", 2),
        "EXISTS (SELECT 1 FROM facts nf
                   JOIN relation_types nr ON nr.id = nf.predicate_id
                  WHERE nf.subject_id = e.id AND nr.builtin AND nr.key = 'known_as'
                    AND nf.invalidated_at IS NULL
                    AND lower(nf.object_value->>'value') = ANY($2))"
    );
    assert_eq!(
        has_name_like("e", 13),
        "EXISTS (SELECT 1 FROM facts nf
                   JOIN relation_types nr ON nr.id = nf.predicate_id
                  WHERE nf.subject_id = e.id AND nr.builtin AND nr.key = 'known_as'
                    AND nf.invalidated_at IS NULL
                    AND nf.object_value->>'value' ILIKE $13)"
    );
    assert_eq!(
        not_a_name("f"),
        "NOT EXISTS (SELECT 1 FROM relation_types nr
                      WHERE nr.id = f.predicate_id AND nr.builtin AND nr.key = 'known_as')"
    );
}

#[test]
fn a_name_is_recorded_as_a_value() {
    assert_eq!(
        recorded_value("海探1"),
        Some(Json::Object(vec![Member {
            key: "value".into(),
            value: Json::Text("海探1".into()),
        }]))
    );
    assert_eq!(recorded_value(""), None);
}

#[test]
fn the_names_of_an_entity_are_asked_for_a_moment() {
    let sql = for_entity("OWNER", "HELD");
    assert!(sql.starts_with("SELECT f.id AS fact_id, f.object_value->>'value' AS name, "));
    assert!(sql.ends_with(
        "r.key = 'known_as' AND OWNER = $2 AND HELD ORDER BY canonical DESC, f.recorded_at"
    ));
}
