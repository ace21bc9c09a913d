//! Names as facts.
//!
//! Every name of an entity, whether its own, a short one or a former one, is a
//! fact with a value under the built-in attribute `known_as`. It has a source and
//! both clocks, it moves with a merge and comes back with its revert, and it is a
//! value and never a node. Two things are told apart when names are read. To find
//! an entity by a name, former names count too, so only the clock of the record is
//! asked. Where facts are listed or counted, a name is none.

use vstd::prelude::*;
use vstd::string::*;

use crate::json::{member, object, text, Json, JsonView, Member};
use crate::strings::{decimal, holds, occurs_at, same, write_decimal};

verus! {

/// The key of the built-in attribute.
pub const KNOWN_AS: &'static str = "known_as";

/// How the attribute is described where it is created.
pub const KNOWN_AS_DESCRIPTION: &'static str = "A name a text uses for this entity. Each name is a fact with its source and both clocks; a name is a value and never becomes a node.";

/// What is read of a relation type here.
#[derive(Debug)]
pub struct RelationType {
    pub key: String,
    pub builtin: bool,
}

/// Is this the attribute for names? It is kept from the model: a name comes by
/// its own way, on which it is held against the text.
pub fn is_name_attribute(r: &RelationType) -> (b: bool)
    ensures
        b == (r.builtin && r.key@ == KNOWN_AS@),
{
    r.builtin && same(r.key.as_str(), KNOWN_AS)
}

pub open spec fn name_value(name: Seq<char>) -> JsonView {
    JsonView::Object(seq![("value"@, JsonView::Text(name))])
}

/// The value that is recorded for a name in its normal form; an empty name is
/// not recorded.
pub fn recorded_value(name: &str) -> (r: Option<Json>)
    ensures
        r.deep_view() == if name@.len() == 0 {
            None
        } else {
            Some(name_value(name@))
        },
{
    if name.is_empty() {
        return None;
    }
    let members: Vec<Member> = vec![member("value", text(name))];
    assert(members.deep_view() =~= name_value(name@)->Object_0);
    Some(object(members))
}

// ---- Fragments of queries ----

/// Between two conditions of a query.
pub const NEXT_CONDITION: &'static str = "\n                    AND ";

/// The condition that a relation type is the attribute for names.
pub open spec fn name_attribute() -> Seq<char> {
    "nr.builtin AND nr.key = '"@ + KNOWN_AS@ + "'"@
}

/// The condition that a name fact was not taken back. That it has ended does not
/// matter: older texts still use the name.
pub open spec fn still_recorded() -> Seq<char> {
    "nf.invalidated_at IS NULL"@
}

/// The entity has a name fact that is held now.
pub open spec fn held_name(entity: Seq<char>) -> Seq<char> {
    "EXISTS (SELECT 1 FROM facts nf\n                   JOIN relation_types nr ON nr.id = nf.predicate_id\n                  WHERE nf.subject_id = "@
        + entity + ".id AND "@ + name_attribute() + NEXT_CONDITION@ + still_recorded()
        + NEXT_CONDITION@
}

pub open spec fn name_in_text(entity: Seq<char>, param: nat) -> Seq<char> {
    held_name(entity) + "lower(nf.object_value->>'value') = ANY($"@ + decimal(param) + "))"@
}

pub open spec fn name_like_text(entity: Seq<char>, param: nat) -> Seq<char> {
    held_name(entity) + "nf.object_value->>'value' ILIKE $"@ + decimal(param) + ")"@
}

pub open spec fn not_a_name_text(fact: Seq<char>) -> Seq<char> {
    "NOT EXISTS (SELECT 1 FROM relation_types nr\n                      WHERE nr.id = "@ + fact
        + ".predicate_id AND "@ + name_attribute() + ")"@
}

fn write_name_attribute() -> (r: String)
    ensures
        r@ == name_attribute(),
{
    let mut out: String = "nr.builtin AND nr.key = '".to_owned();
    out.append(KNOWN_AS);
    out.append("'");
    out
}

fn write_held_name(entity: &str) -> (r: String)
    ensures
        r@ == held_name(entity@),
{
    let mut out: String =
        "EXISTS (SELECT 1 FROM facts nf\n                   JOIN relation_types nr ON nr.id = nf.predicate_id\n                  WHERE nf.subject_id = ".to_owned();
    out.append(entity);
    out.append(".id AND ");
    out.append(write_name_attribute().as_str());
    out.append(NEXT_CONDITION);
    out.append("nf.invalidated_at IS NULL");
    out.append(NEXT_CONDITION);
    out
}

/// To find an entity: it has a name, in lower case, among those of the parameter
/// with this number.
pub fn has_name_in(entity: &str, param: usize) -> (r: String)
    ensures
        r@ == name_in_text(entity@, param as nat),
{
    let mut out: String = write_held_name(entity);
    out.append("lower(nf.object_value->>'value') = ANY($");
    out.append(write_decimal(param as u64).as_str());
    out.append("))");
    out
}

/// To search: the entity has a name like the parameter with this number.
pub fn has_name_like(entity: &str, param: usize) -> (r: String)
    ensures
        r@ == name_like_text(entity@, param as nat),
{
    let mut out: String = write_held_name(entity);
    out.append("nf.object_value->>'value' ILIKE $");
    out.append(write_decimal(param as u64).as_str());
    out.append(")");
    out
}

/// To list facts: the fact is not a name.
pub fn not_a_name(fact: &str) -> (r: String)
    ensures
        r@ == not_a_name_text(fact@),
{
    let mut out: String = "NOT EXISTS (SELECT 1 FROM relation_types nr\n                      WHERE nr.id = ".to_owned();
    out.append(fact);
    out.append(".predicate_id AND ");
    out.append(write_name_attribute().as_str());
    out.append(")");
    out
}

/// The names of an entity, its own first and the others as they were recorded;
/// `owner` and `held` are the conditions for the moment that is asked about.
pub open spec fn names_query(owner: Seq<char>, held: Seq<char>) -> Seq<char> {
    "SELECT f.id AS fact_id, f.object_value->>'value' AS name, lower(f.object_value->>'value') = lower(e.canonical_name) AS canonical, f.recorded_at, f.valid_from, f.valid_from_precision, f.valid_to, f.valid_to_precision, ARRAY(SELECT DISTINCT fe.document_id FROM fact_evidence fe WHERE fe.fact_id = f.id AND fe.document_id IS NOT NULL ORDER BY fe.document_id) AS document_ids, (SELECT count(*) FROM fact_evidence fe WHERE fe.fact_id = f.id) AS evidence_count FROM facts f JOIN relation_types r ON r.id = f.predicate_id JOIN entities e ON e.id = $2 WHERE f.kb_id = $1 AND r.builtin AND r.key = '"@
        + KNOWN_AS@ + "' AND "@ + owner + " = $2 AND "@ + held
        + " ORDER BY canonical DESC, f.recorded_at"@
}

pub fn for_entity(owner: &str, held: &str) -> (r: String)
    ensures
        r@ == names_query(owner@, held@),
{
    let mut out: String =
        "SELECT f.id AS fact_id, f.object_value->>'value' AS name, lower(f.object_value->>'value') = lower(e.canonical_name) AS canonical, f.recorded_at, f.valid_from, f.valid_from_precision, f.valid_to, f.valid_to_precision, ARRAY(SELECT DISTINCT fe.document_id FROM fact_evidence fe WHERE fe.fact_id = f.id AND fe.document_id IS NOT NULL ORDER BY fe.document_id) AS document_ids, (SELECT count(*) FROM fact_evidence fe WHERE fe.fact_id = f.id) AS evidence_count FROM facts f JOIN relation_types r ON r.id = f.predicate_id JOIN entities e ON e.id = $2 WHERE f.kb_id = $1 AND r.builtin AND r.key = '".to_owned();
    out.append(KNOWN_AS);
    out.append("' AND ");
    out.append(owner);
    out.append(" = $2 AND ");
    out.append(held);
    out.append(" ORDER BY canonical DESC, f.recorded_at");
    out
}

// ---- Laws ----

proof fn lemma_held_somewhere(before: Seq<char>, part: Seq<char>, after: Seq<char>)
    ensures
        holds(before + part + after, part),
{
    let all = before + part + after;
    let at = before.len() as int;
    assert(all.subrange(at, at + part.len()) =~= part);
    assert(occurs_at(all, part, at));
}

/// What is found by a name and what is left out of the facts are told by the
/// same attribute, and a name is found for as long as it is recorded.
pub proof fn law_names_are_told_by_one_attribute(entity: Seq<char>, fact: Seq<char>, param: nat)
    ensures
        holds(name_in_text(entity, param), name_attribute()),
        holds(name_like_text(entity, param), name_attribute()),
        holds(not_a_name_text(fact), name_attribute()),
        holds(name_in_text(entity, param), still_recorded()),
        holds(name_like_text(entity, param), still_recorded()),
{
    let head = "EXISTS (SELECT 1 FROM facts nf\n                   JOIN relation_types nr ON nr.id = nf.predicate_id\n                  WHERE nf.subject_id = "@
        + entity + ".id AND "@;
    let tail = NEXT_CONDITION@ + still_recorded() + NEXT_CONDITION@;
    let in_tail = "lower(nf.object_value->>'value') = ANY($"@ + decimal(param) + "))"@;
    let like_tail = "nf.object_value->>'value' ILIKE $"@ + decimal(param) + ")"@;
    lemma_held_somewhere(head, name_attribute(), tail + in_tail);
    assert(name_in_text(entity, param) =~= head + name_attribute() + (tail + in_tail));
    lemma_held_somewhere(head, name_attribute(), tail + like_tail);
    assert(name_like_text(entity, param) =~= head + name_attribute() + (tail + like_tail));
    let recorded = head + name_attribute() + NEXT_CONDITION@;
    lemma_held_somewhere(recorded, still_recorded(), NEXT_CONDITION@ + in_tail);
    assert(name_in_text(entity, param) =~= recorded + still_recorded() + (NEXT_CONDITION@ + in_tail));
    lemma_held_somewhere(recorded, still_recorded(), NEXT_CONDITION@ + like_tail);
    assert(name_like_text(entity, param) =~= recorded + still_recorded() + (NEXT_CONDITION@
        + like_tail));
    let outer = "NOT EXISTS (SELECT 1 FROM relation_types nr\n                      WHERE nr.id = "@ + fact
        + ".predicate_id AND "@;
    lemma_held_somewhere(outer, name_attribute(), ")"@);
}

} // verus!
