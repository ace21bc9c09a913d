//! Laws of the queries: which columns are marked as keys, which rows come back, and
//! what stands in the texts that are sent.

use vstd::prelude::*;

use crate::governance::{
    family_query, is_pair_text, search_query, touches_text, Family, LEFT_NAME, RIGHT_NAME,
};
use crate::json::{has_member, has_members, JsonView};
use crate::names::{
    name_attribute, name_in_text, name_like_text, name_value, names_query, not_a_name_text,
    still_recorded,
};
use crate::query_engine::{
    alone, described, key_at, keys_of, of_one_key, result_of, schema_of, timeout_text, wrapped_text,
    ColumnRowView, ForeignKeyView, KeyView, Place,
};
use crate::strings::{decimal, holds};
use crate::strings_laws::law_what_is_held_stands_within;

verus! {

// ---- The schema ----

/// The key at `i` stands at this place and has no other column: no key row of the
/// same name and table names another column.
pub open spec fn is_key_alone(keys: Seq<KeyView>, i: int, place: Place) -> bool {
    &&& 0 <= i < keys.len()
    &&& keys[i].place == place
    &&& forall|j: int|
        0 <= j < keys.len() && (#[trigger] keys[j]).constraint == keys[i].constraint
            && keys[j].place.0 == place.0 && keys[j].place.1 == place.1 ==> keys[j].place.2
            == place.2
}

proof fn lemma_alone(keys: Seq<KeyView>, i: int, place: Place)
    requires
        0 <= i < keys.len(),
    ensures
        is_key_alone(keys, i, place) <==> keys[i].place == place && alone(keys, keys[i]),
{
    if keys[i].place == place && alone(keys, keys[i]) {
        assert forall|j: int|
            0 <= j < keys.len() && (#[trigger] keys[j]).constraint == keys[i].constraint
                && keys[j].place.0 == place.0 && keys[j].place.1 == place.1 implies keys[j].place.2
            == place.2 by {
            assert(of_one_key(keys[j], keys[i]));
        }
    }
    if is_key_alone(keys, i, place) {
        assert forall|j: int| 0 <= j < keys.len() && of_one_key(#[trigger] keys[j], keys[i]) implies
            keys[j].place == keys[i].place by {
            assert(keys[j].place.2 == place.2);
        }
    }
}

proof fn lemma_last_key(fks: Seq<ForeignKeyView>, place: Place, n: int, i: int)
    requires
        0 <= i < n <= fks.len(),
        fks[i].key.place == place,
        alone(keys_of(fks), fks[i].key),
        forall|j: int|
            i < j < n ==> !((#[trigger] fks[j]).key.place == place && alone(
                keys_of(fks),
                fks[j].key,
            )),
    ensures
        key_at(fks, place, n) == Some(fks[i]),
    decreases n,
{
    if i < n - 1 {
        assert(!(fks[n - 1].key.place == place && alone(keys_of(fks), fks[n - 1].key)));
        lemma_last_key(fks, place, n - 1, i);
    }
}

proof fn lemma_no_key(fks: Seq<ForeignKeyView>, place: Place, n: int)
    requires
        0 <= n <= fks.len(),
        forall|j: int|
            0 <= j < n ==> !((#[trigger] fks[j]).key.place == place && alone(
                keys_of(fks),
                fks[j].key,
            )),
    ensures
        key_at(fks, place, n) is None,
    decreases n,
{
    if n > 0 {
        lemma_no_key(fks, place, n - 1);
    }
}

/// A column keeps its place, its type and its comment; it is nullable exactly where
/// the catalog says `YES`, and a primary key exactly where one stands there alone.
pub proof fn law_a_column_is_described_as_it_is(
    c: ColumnRowView,
    pks: Seq<KeyView>,
    fks: Seq<ForeignKeyView>,
)
    ensures
        ({
            let d = described(c, pks, fks);
            &&& d.place == c.place && d.data_type == c.data_type && d.comment == c.comment
            &&& d.nullable <==> c.is_nullable == Some("YES"@)
            &&& d.is_primary_key <==> exists|i: int| #[trigger] is_key_alone(pks, i, c.place)
        }),
{
    let d = described(c, pks, fks);
    if d.is_primary_key {
        let i = choose|i: int|
            0 <= i < pks.len() && (#[trigger] pks[i]).place == c.place && alone(pks, pks[i]);
        lemma_alone(pks, i, c.place);
        assert(is_key_alone(pks, i, c.place));
    }
    if exists|i: int| #[trigger] is_key_alone(pks, i, c.place) {
        let i = choose|i: int| #[trigger] is_key_alone(pks, i, c.place);
        lemma_alone(pks, i, c.place);
        assert(pks[i].place == c.place);
    }
}

/// Each column of the catalog is described, in order.
pub proof fn law_every_column_is_described(
    cols: Seq<ColumnRowView>,
    pks: Seq<KeyView>,
    fks: Seq<ForeignKeyView>,
    i: int,
)
    ensures
        schema_of(cols, pks, fks).len() == cols.len(),
        0 <= i < cols.len() ==> schema_of(cols, pks, fks)[i] == described(cols[i], pks, fks),
{
}

/// A column is a foreign key exactly where one stands there alone; of several the
/// last says which table it refers to, by its schema and its name where both are
/// known.
pub proof fn law_the_last_key_alone_is_referred_to(
    c: ColumnRowView,
    pks: Seq<KeyView>,
    fks: Seq<ForeignKeyView>,
    i: int,
)
    ensures
        (forall|j: int| !#[trigger] is_key_alone(keys_of(fks), j, c.place)) ==> !described(
            c,
            pks,
            fks,
        ).is_foreign_key && described(c, pks, fks).references_table is None,
        is_key_alone(keys_of(fks), i, c.place) && (forall|j: int|
            j > i ==> !#[trigger] is_key_alone(keys_of(fks), j, c.place)) ==> {
            &&& described(c, pks, fks).is_foreign_key
            &&& fks[i].ref_schema is Some && fks[i].ref_table is Some ==> described(
                c,
                pks,
                fks,
            ).references_table == Some(
                fks[i].ref_schema->Some_0 + "."@ + fks[i].ref_table->Some_0,
            )
            &&& fks[i].ref_schema is None || fks[i].ref_table is None ==> described(
                c,
                pks,
                fks,
            ).references_table is None
        },
{
    let keys = keys_of(fks);
    let n = fks.len() as int;
    if forall|j: int| !#[trigger] is_key_alone(keys, j, c.place) {
        assert forall|j: int| 0 <= j < n implies !((#[trigger] fks[j]).key.place == c.place
            && alone(keys, fks[j].key)) by {
            assert(keys[j] == fks[j].key);
            lemma_alone(keys, j, c.place);
            assert(!is_key_alone(keys, j, c.place));
        }
        lemma_no_key(fks, c.place, n);
    }
    if is_key_alone(keys, i, c.place) && (forall|j: int|
        j > i ==> !#[trigger] is_key_alone(keys, j, c.place)) {
        assert(keys[i] == fks[i].key);
        lemma_alone(keys, i, c.place);
        assert forall|j: int| i < j < n implies !((#[trigger] fks[j]).key.place == c.place
            && alone(keys, fks[j].key)) by {
            assert(keys[j] == fks[j].key);
            lemma_alone(keys, j, c.place);
            assert(!is_key_alone(keys, j, c.place));
        }
        lemma_last_key(fks, c.place, n, i);
    }
}

// ---- Rows ----

/// The rows that come back are the first ones that were fetched, up to the cap, each
/// as it is, or as an empty object where it could not be read; the result says
/// whether more were fetched.
pub proof fn law_the_first_rows_come_back(
    fetched: Seq<Option<Seq<char>>>,
    cap: nat,
    i: int,
)
    ensures
        ({
            let r = result_of(fetched, cap);
            &&& fetched.len() <= cap ==> r.rows.len() == fetched.len() && !r.truncated
            &&& fetched.len() > cap ==> r.rows.len() == cap && r.truncated
            &&& 0 <= i < r.rows.len() ==> {
                &&& fetched[i] matches Some(t) ==> r.rows[i] == t
                &&& fetched[i] is None ==> r.rows[i] == "{}"@
            }
        }),
{
}

/// A query goes out whole, with its limit at the end; the time it may take is in
/// seconds.
pub proof fn law_a_query_goes_out_whole(sql: Seq<char>, limit: nat)
    ensures
        wrapped_text(sql, limit) == "SELECT row_to_json(_q)::text AS _j FROM ( "@ + sql
            + " ) AS _q LIMIT "@ + decimal(limit),
        timeout_text(limit) == "SET statement_timeout = '"@ + decimal(limit) + "s'"@,
{
}

// ---- Names ----

/// A name is recorded as a value under one key.
pub proof fn law_a_name_is_a_value(name: Seq<char>)
    ensures
        has_members(name_value(name), 1),
        has_member(name_value(name), "value"@, JsonView::Text(name)),
{
    let m = name_value(name)->Object_0;
    assert(m[0].0 == "value"@);
}

/// The conditions on names begin with the entity or the fact that they were asked
/// for and end with the parameter that they compare with; a name in lower case is
/// one of those given, and a name is like the pattern.
pub proof fn law_a_condition_names_its_entity_and_parameter(
    entity: Seq<char>,
    fact: Seq<char>,
    param: nat,
)
    ensures
        ({
            let head = "EXISTS (SELECT 1 FROM facts nf\n                   JOIN relation_types nr ON nr.id = nf.predicate_id\n                  WHERE nf.subject_id = "@
                + entity + ".id AND "@;
            let x = "lower(nf.object_value->>'value') = ANY($"@ + decimal(param) + "))"@;
            let y = "nf.object_value->>'value' ILIKE $"@ + decimal(param) + ")"@;
            let not = "NOT EXISTS (SELECT 1 FROM relation_types nr\n                      WHERE nr.id = "@
                + fact + ".predicate_id AND "@;
            &&& head.is_prefix_of(name_in_text(entity, param))
            &&& head.is_prefix_of(name_like_text(entity, param))
            &&& x.is_suffix_of(name_in_text(entity, param))
            &&& y.is_suffix_of(name_like_text(entity, param))
            &&& not.is_prefix_of(not_a_name_text(fact))
        }),
        name_attribute() == "nr.builtin AND nr.key = '"@ + "known_as"@ + "'"@,
        still_recorded() == "nf.invalidated_at IS NULL"@,
{
    let head = "EXISTS (SELECT 1 FROM facts nf\n                   JOIN relation_types nr ON nr.id = nf.predicate_id\n                  WHERE nf.subject_id = "@
        + entity + ".id AND "@;
    let (a, b) = (name_in_text(entity, param), name_like_text(entity, param));
    assert(a.take(head.len() as int) =~= head);
    assert(b.take(head.len() as int) =~= head);
    let x = "lower(nf.object_value->>'value') = ANY($"@ + decimal(param) + "))"@;
    let y = "nf.object_value->>'value' ILIKE $"@ + decimal(param) + ")"@;
    assert(a.skip(a.len() - x.len()) =~= x);
    assert(b.skip(b.len() - y.len()) =~= y);
    let not = "NOT EXISTS (SELECT 1 FROM relation_types nr\n                      WHERE nr.id = "@
        + fact + ".predicate_id AND "@;
    let c = not_a_name_text(fact);
    assert(c.take(not.len() as int) =~= not);
}

/// The names of an entity are asked for in its knowledge base, by the conditions of
/// the moment, the own name first and the others as they were recorded.
pub proof fn law_names_are_asked_for_a_moment(owner: Seq<char>, held: Seq<char>)
    ensures
        names_query(owner, held) == "SELECT f.id AS fact_id, f.object_value->>'value' AS name, lower(f.object_value->>'value') = lower(e.canonical_name) AS canonical, f.recorded_at, f.valid_from, f.valid_from_precision, f.valid_to, f.valid_to_precision, ARRAY(SELECT DISTINCT fe.document_id FROM fact_evidence fe WHERE fe.fact_id = f.id AND fe.document_id IS NOT NULL ORDER BY fe.document_id) AS document_ids, (SELECT count(*) FROM fact_evidence fe WHERE fe.fact_id = f.id) AS evidence_count FROM facts f JOIN relation_types r ON r.id = f.predicate_id JOIN entities e ON e.id = $2 WHERE f.kb_id = $1 AND r.builtin AND r.key = '"@
            + "known_as"@ + "' AND "@ + owner + " = $2 AND "@ + held
            + " ORDER BY canonical DESC, f.recorded_at"@,
{
}

// ---- The ledger ----

/// The condition that an entry is about the pair holds either way round, and that
/// it touches one of the names on either side.
pub proof fn law_a_pair_is_found_either_way_round()
    ensures
        is_pair_text() == "(("@ + LEFT_NAME@ + " = $2 AND "@ + RIGHT_NAME@ + " = $3) OR ("@
            + LEFT_NAME@ + " = $3 AND "@ + RIGHT_NAME@ + " = $2))"@,
        LEFT_NAME@ == "lower(COALESCE(detail->>'left', detail->>'source', ''))"@,
        RIGHT_NAME@ == "lower(COALESCE(detail->>'right', detail->>'target', ''))"@,
        touches_text() == "("@ + LEFT_NAME@ + " IN ($2, $3) OR "@ + RIGHT_NAME@ + " IN ($2, $3))"@,
{
}

/// Each family asks for its own entries, newest first and no more than the limit:
/// the decisions on the pair, the decisions on one of the names that are not on the
/// pair, and the reverts that touched one of the names. A search asks for all of
/// these by a pattern.
pub proof fn law_each_family_asks_for_its_own_entries(family: Family)
    ensures
        ({
            let decided =
                " AND action IN ('review.merge', 'review.keep', 'merge.manual') AND "@;
            let tail = " ORDER BY created_at DESC LIMIT $4"@;
            &&& (decided + is_pair_text() + tail).is_suffix_of(family_query(Family::SamePair))
            &&& (decided + touches_text() + " AND NOT "@ + is_pair_text() + tail).is_suffix_of(
                family_query(Family::SameName),
            )
            &&& (" AND action = 'merge.revert' AND "@ + touches_text() + tail).is_suffix_of(
                family_query(Family::Reverts),
            )
            &&& holds(family_query(family), " FROM audit_events WHERE kb_id = $1"@)
            &&& holds(search_query(), " FROM audit_events WHERE kb_id = $1"@)
            &&& (" AND action IN ('review.merge', 'review.keep', 'merge.manual', 'merge.revert') AND ("@
                + LEFT_NAME@ + " LIKE $2 OR "@ + RIGHT_NAME@
                + " LIKE $2) ORDER BY created_at DESC LIMIT $3"@).is_suffix_of(search_query())
        }),
{
    let decided = " AND action IN ('review.merge', 'review.keep', 'merge.manual') AND "@;
    let tail = " ORDER BY created_at DESC LIMIT $4"@;
    let a = decided + is_pair_text() + tail;
    let x = family_query(Family::SamePair);
    assert(x.skip(x.len() - a.len()) =~= a);
    let b = decided + touches_text() + " AND NOT "@ + is_pair_text() + tail;
    let y = family_query(Family::SameName);
    assert(y.skip(y.len() - b.len()) =~= b);
    let c = " AND action = 'merge.revert' AND "@ + touches_text() + tail;
    let z = family_query(Family::Reverts);
    assert(z.skip(z.len() - c.len()) =~= c);
    let d = " AND action IN ('review.merge', 'review.keep', 'merge.manual', 'merge.revert') AND ("@
        + LEFT_NAME@ + " LIKE $2 OR "@ + RIGHT_NAME@
        + " LIKE $2) ORDER BY created_at DESC LIMIT $3"@;
    let w = search_query();
    assert(w.skip(w.len() - d.len()) =~= d);
    let part = " FROM audit_events WHERE kb_id = $1"@;
    let head = "SELECT "@ + crate::governance::COLUMNS@;
    let all = family_query(family);
    let n = (head.len() + part.len()) as int;
    assert(all =~= head + part + all.skip(n));
    law_what_is_held_stands_within(head, part, all.skip(n), all);
    assert(w =~= head + part + w.skip(n));
    law_what_is_held_stands_within(head, part, w.skip(n), w);
}

} // verus!
