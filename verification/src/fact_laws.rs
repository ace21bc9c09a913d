//! Laws of what becomes of a single fact: when it is dropped, cut, spread or left as
//! it is, and what is said of that.

use vstd::prelude::*;
use vstd::string::*;

use crate::chars::{alphabetic, alphanumeric, numeric, white_space};
use crate::extraction::{EntityView, ExtractionView, FactView};
use crate::json::JsonView;
use crate::moment::contract_time;
use crate::normalize::{
    after_cut, before_cut, by_handle, carries_value, closing, cut_in, cut_notes, cuts,
    description_notes, facts_after, grounded, has_numeric, has_value, last_cut, normal_form,
    normalized, notes_on, object_name, object_of, orphan_note, orphaned, place, place_all,
    place_grounded, quote_of, referred_to, refers_to, says_nothing, still_held, subject_name,
    tail_of, unit_key, values_on, written_value, NormalizationView,
};
use crate::normalize_laws::law_cut_is_grounded;
use crate::strings::{folded, holds, joined, lowercase, trim_end_where, trimmed, words};
use crate::strings_laws::law_trimming_the_end_leaves_the_front;

verus! {

// ---- Sides ----

/// The entity was declared with this handle, white space at the ends aside.
pub open spec fn declared_as(e: EntityView, handle: Seq<char>) -> bool {
    e.local_id matches Some(id) && trimmed(id) == trimmed(handle)
}

proof fn lemma_by_handle(entities: Seq<EntityView>, handle: Seq<char>, from: int, k: int)
    requires
        0 <= from <= k <= entities.len(),
        forall|i: int| from <= i < k ==> !declared_as(#[trigger] entities[i], handle),
    ensures
        k == entities.len() ==> by_handle(entities, handle, from) is None,
        k < entities.len() && declared_as(entities[k], handle) ==> by_handle(
            entities,
            handle,
            from,
        ) == Some(trimmed(entities[k].name)),
    decreases k - from,
{
    if from < k {
        assert(!declared_as(entities[from], handle));
        lemma_by_handle(entities, handle, from + 1, k);
    }
}

/// A side is called by the name of the first entity that was declared with its
/// handle. Without a handle, or with one that nothing was declared with, it is
/// called as it was written, without white space at the ends.
pub proof fn law_a_handle_stands_for_its_declaration(
    entities: Seq<EntityView>,
    f: FactView,
    k: int,
)
    requires
        0 <= k < entities.len(),
    ensures
        f.subject_ref is None ==> subject_name(entities, f) == trimmed(f.subject),
        f.object_ref is None ==> object_name(entities, f) == match f.object {
            Some(o) => Some(trimmed(o)),
            None => None,
        },
        f.subject_ref matches Some(h) ==> {
            &&& (forall|i: int| 0 <= i < entities.len() ==> !declared_as(#[trigger] entities[i], h))
                ==> subject_name(entities, f) == trimmed(f.subject)
            &&& declared_as(entities[k], h) && (forall|i: int|
                0 <= i < k ==> !declared_as(#[trigger] entities[i], h)) ==> subject_name(
                entities,
                f,
            ) == trimmed(entities[k].name)
        },
        f.object_ref matches Some(h) ==> {
            &&& (forall|i: int| 0 <= i < entities.len() ==> !declared_as(#[trigger] entities[i], h))
                ==> object_name(entities, f) == match f.object {
                Some(o) => Some(trimmed(o)),
                None => None,
            }
            &&& declared_as(entities[k], h) && (forall|i: int|
                0 <= i < k ==> !declared_as(#[trigger] entities[i], h)) ==> object_name(entities, f)
                == Some(trimmed(entities[k].name))
        },
{
    if let Some(h) = f.subject_ref {
        if forall|i: int| 0 <= i < entities.len() ==> !declared_as(#[trigger] entities[i], h) {
            lemma_by_handle(entities, h, 0, entities.len() as int);
        }
        if declared_as(entities[k], h) && (forall|i: int|
            0 <= i < k ==> !declared_as(#[trigger] entities[i], h)) {
            lemma_by_handle(entities, h, 0, k);
        }
    }
    if let Some(h) = f.object_ref {
        if forall|i: int| 0 <= i < entities.len() ==> !declared_as(#[trigger] entities[i], h) {
            lemma_by_handle(entities, h, 0, entities.len() as int);
        }
        if declared_as(entities[k], h) && (forall|i: int|
            0 <= i < k ==> !declared_as(#[trigger] entities[i], h)) {
            lemma_by_handle(entities, h, 0, k);
        }
    }
}

/// Without declarations every side is called as it was written.
pub proof fn law_undeclared_sides_are_called_as_written(f: FactView)
    ensures
        subject_name(Seq::empty(), f) == trimmed(f.subject),
        object_name(Seq::empty(), f) == match f.object {
            Some(o) => Some(trimmed(o)),
            None => None,
        },
{
}

// ---- Figures ----

/// The attribute says the unit of a figure.
pub open spec fn names_a_unit(key: Seq<char>) -> bool {
    let k = lowercase(trimmed(key));
    k == "currency"@ || k == "unit"@ || k == "币种"@ || k == "货币"@ || k == "单位"@
}

/// The attribute is a figure: it has a value and does not only say a unit.
pub open spec fn is_figure(m: (Seq<char>, JsonView)) -> bool {
    m.1 !is Null && !names_a_unit(m.0)
}

proof fn lemma_same_filter<A>(s: Seq<A>, p: spec_fn(A) -> bool, q: spec_fn(A) -> bool)
    requires
        forall|a: A| #[trigger] p(a) == q(a),
    ensures
        s.filter(p) == s.filter(q),
    decreases s.len(),
{
    reveal(Seq::filter);
    if s.len() > 0 {
        lemma_same_filter(s.drop_last(), p, q);
        assert(p(s.last()) == q(s.last()));
    }
}

/// The values on an edge are its figures, in order: every attribute but those that
/// are null or only say a unit.
pub proof fn law_figures_are_what_is_no_unit(f: FactView)
    ensures
        f.qualifiers is None ==> values_on(f).len() == 0,
        f.qualifiers matches Some(q) ==> values_on(f) == q.filter(
            |m: (Seq<char>, JsonView)| is_figure(m),
        ),
{
    if let Some(q) = f.qualifiers {
        let p = |m: (Seq<char>, JsonView)| is_figure(m);
        assert forall|m: (Seq<char>, JsonView)| #[trigger] carries_value()(m) == p(m) by {
            assert(unit_key(m.0) == names_a_unit(m.0));
        }
        lemma_same_filter(q, carries_value(), p);
    }
}

/// `v` is a value about the subject of `f`: it takes over who it is about, until
/// when, how sure it is and where it was read, and nothing of the object.
pub open spec fn is_value_of(
    v: FactView,
    f: FactView,
    predicate: Seq<char>,
    value: JsonView,
    valid_from: Option<Seq<char>>,
) -> bool {
    &&& v.subject == f.subject && v.subject_ref == f.subject_ref && v.subject_span
        == f.subject_span
    &&& v.predicate == predicate
    &&& v.object is None && v.object_ref is None && v.object_span is None
    &&& v.value == Some(value)
    &&& v.qualifiers is None
    &&& v.valid_from == valid_from
    &&& v.valid_to == f.valid_to
    &&& v.confidence == f.confidence
    &&& v.quote == f.quote
}

// ---- What becomes of a fact ----

/// The value is a text without a letter or a number.
pub open spec fn is_a_blank_cell(f: FactView) -> bool {
    f.value matches Some(JsonView::Text(w)) && forall|i: int|
        0 <= i < w.len() ==> !alphabetic(#[trigger] w[i]) && !numeric(w[i])
}

/// The tail that the quote does not hold, where the value is a text.
pub open spec fn tail_in(f: FactView) -> Option<(Seq<char>, Seq<char>)> {
    let quote = match f.quote {
        Some(q) => q,
        None => Seq::empty(),
    };
    match f.value {
        Some(JsonView::Text(w)) => tail_of(w, quote),
        _ => None,
    }
}

proof fn lemma_cells(f: FactView)
    ensures
        is_a_blank_cell(f) <==> (written_value(f) matches Some(w) && says_nothing(w)),
        tail_in(f) == cut_in(f),
{
    if let Some(JsonView::Text(w)) = f.value {
        if is_a_blank_cell(f) {
            assert forall|i: int| 0 <= i < w.len() implies !alphanumeric(#[trigger] w[i]) by {}
            assert(says_nothing(w));
        }
        if says_nothing(w) {
            assert forall|i: int| 0 <= i < w.len() implies !alphabetic(#[trigger] w[i])
                && !numeric(w[i]) by {
                assert(!alphanumeric(w[i]));
            }
        }
    }
}

/// A fact whose value says nothing goes, and that is reported with what was
/// written.
pub proof fn law_a_blank_cell_goes(entities: Seq<EntityView>, f: FactView)
    requires
        is_a_blank_cell(f),
    ensures
        place(entities, f).facts.len() == 0,
        place(entities, f).notes == seq![
            NormalizationView::NoValue { predicate: f.predicate, written: f.value->Some_0->Text_0 },
        ],
{
    lemma_cells(f);
}

/// A value with a tail that the quote does not hold is cut, which is reported; then
/// the fact is treated as if it had been written without the tail.
pub proof fn law_a_cut_fact_is_placed_as_if_written_so(entities: Seq<EntityView>, f: FactView)
    requires
        !is_a_blank_cell(f),
        tail_in(f) is Some,
    ensures
        ({
            let (kept, rest) = tail_in(f)->Some_0;
            let g = FactView { value: Some(JsonView::Text(kept)), ..f };
            &&& place(entities, f).facts == place(entities, g).facts
            &&& place(entities, f).notes == seq![
                NormalizationView::ValueTrimmed { predicate: f.predicate, kept, dropped: rest },
            ] + place(entities, g).notes
            &&& !is_a_blank_cell(g) && tail_in(g) is None
        }),
{
    lemma_cells(f);
    let (kept, rest) = tail_in(f)->Some_0;
    let g = FactView { value: Some(JsonView::Text(kept)), ..f };
    lemma_cells(g);
    law_cut_is_grounded(f.value->Some_0->Text_0, quote_of(f));
    let i = choose|i: int| 0 <= i < kept.len() && numeric(#[trigger] kept[i]);
    assert(alphanumeric(kept[i]));
    assert(!says_nothing(kept));
    assert(grounded(f) == g);
    assert(grounded(g) == g);
    assert(cut_notes(g) + place_grounded(entities, g).notes =~= place_grounded(entities, g).notes);
}

/// The value says something, and there is nothing to cut.
pub open spec fn reads_well(f: FactView) -> bool {
    !is_a_blank_cell(f) && tail_in(f) is None
}

proof fn lemma_placed_as_is(entities: Seq<EntityView>, f: FactView)
    requires
        reads_well(f),
    ensures
        place(entities, f).facts == place_grounded(entities, f).facts,
        place(entities, f).notes == place_grounded(entities, f).notes,
{
    lemma_cells(f);
    assert(grounded(f) == f);
    assert(cut_notes(f) + place_grounded(entities, f).notes =~= place_grounded(entities, f).notes);
}

/// The fact has an object: its name is not empty.
pub open spec fn has_object(entities: Seq<EntityView>, f: FactView) -> bool {
    object_name(entities, f) matches Some(o) && o.len() > 0
}

/// The fact has a value that is not null.
pub open spec fn is_valued(f: FactView) -> bool {
    f.value is Some && f.value->Some_0 !is Null
}

/// A fact about a time goes, and is reported with the time.
pub proof fn law_a_time_is_no_subject(entities: Seq<EntityView>, f: FactView)
    requires
        reads_well(f),
        contract_time(subject_name(entities, f)),
    ensures
        place(entities, f).facts.len() == 0,
        place(entities, f).notes == seq![
            NormalizationView::TimeAsSubject {
                predicate: f.predicate,
                written: subject_name(entities, f),
            },
        ],
{
    lemma_placed_as_is(entities, f);
}

/// Figures on an edge without an object and without a value become values of the
/// subject, one for each in order, under the predicate, a dot and their own key,
/// from when the edge holds; and that is reported with their number.
pub proof fn law_figures_without_an_object_become_values(
    entities: Seq<EntityView>,
    f: FactView,
    i: int,
)
    requires
        reads_well(f),
        !contract_time(subject_name(entities, f)),
        !has_object(entities, f),
        !is_valued(f),
        values_on(f).len() > 0,
    ensures
        place(entities, f).facts.len() == values_on(f).len(),
        0 <= i < values_on(f).len() ==> is_value_of(
            place(entities, f).facts[i],
            f,
            trimmed(f.predicate) + "."@ + trimmed(values_on(f)[i].0),
            values_on(f)[i].1,
            f.valid_from,
        ),
        place(entities, f).notes == seq![
            NormalizationView::QualifiersWithoutObject {
                predicate: f.predicate,
                values: values_on(f).len() as int,
            },
        ],
{
    lemma_placed_as_is(entities, f);
    assert(object_of(entities, f) is None);
    assert(!has_value(f));
}

/// Where the object is a time, the figures become values of the subject that hold
/// from that time on: a single one under the predicate alone, several each with its
/// key; and that is reported with the time and their number. The edge goes.
pub proof fn law_a_time_is_no_object(entities: Seq<EntityView>, f: FactView, i: int)
    requires
        reads_well(f),
        !contract_time(subject_name(entities, f)),
        has_object(entities, f),
        contract_time(object_name(entities, f)->Some_0),
    ensures
        place(entities, f).facts.len() == values_on(f).len(),
        0 <= i < values_on(f).len() ==> is_value_of(
            place(entities, f).facts[i],
            f,
            if values_on(f).len() == 1 {
                trimmed(f.predicate)
            } else {
                trimmed(f.predicate) + "."@ + trimmed(values_on(f)[i].0)
            },
            values_on(f)[i].1,
            object_name(entities, f),
        ),
        place(entities, f).notes == seq![
            NormalizationView::TimeAsObject {
                predicate: f.predicate,
                written: object_name(entities, f)->Some_0,
                values: values_on(f).len() as int,
            },
        ],
{
    lemma_placed_as_is(entities, f);
    assert(object_of(entities, f) == object_name(entities, f));
}

/// Any other fact stays as it was written, and nothing is said of it: one between
/// two sides that are no times, one with a value, and one with nothing at all on it.
pub proof fn law_a_fact_in_shape_is_left_alone(entities: Seq<EntityView>, f: FactView)
    requires
        reads_well(f),
        !contract_time(subject_name(entities, f)),
        has_object(entities, f) ==> !contract_time(object_name(entities, f)->Some_0),
        has_object(entities, f) || is_valued(f) || values_on(f).len() == 0,
    ensures
        place(entities, f).facts == seq![f],
        place(entities, f).notes.len() == 0,
{
    lemma_placed_as_is(entities, f);
    if has_object(entities, f) {
        assert(object_of(entities, f) == object_name(entities, f));
    } else {
        assert(object_of(entities, f) is None);
    }
}

// ---- All facts ----

/// Facts are placed one by one and in order: what becomes of a fact does not depend
/// on the others.
pub proof fn law_facts_are_placed_one_by_one(
    entities: Seq<EntityView>,
    a: Seq<FactView>,
    b: Seq<FactView>,
    f: FactView,
)
    ensures
        place_all(entities, a + b).facts == place_all(entities, a).facts + place_all(
            entities,
            b,
        ).facts,
        place_all(entities, a + b).notes == place_all(entities, a).notes + place_all(
            entities,
            b,
        ).notes,
        place_all(entities, seq![f]).facts == place(entities, f).facts,
        place_all(entities, seq![f]).notes == place(entities, f).notes,
        place_all(entities, Seq::empty()).facts.len() == 0,
        place_all(entities, Seq::empty()).notes.len() == 0,
    decreases b.len(),
{
    let one = seq![f];
    let none = Seq::<FactView>::empty();
    assert(one.drop_last() =~= none);
    assert(place_all(entities, none).facts.len() == 0);
    assert(place_all(entities, none).notes.len() == 0);
    assert(place_all(entities, one).facts =~= place(entities, f).facts);
    assert(place_all(entities, one).notes =~= place(entities, f).notes);
    if b.len() == 0 {
        assert(a + b =~= a);
        assert(place_all(entities, a).facts + place_all(entities, b).facts =~= place_all(
            entities,
            a,
        ).facts);
        assert(place_all(entities, a).notes + place_all(entities, b).notes =~= place_all(
            entities,
            a,
        ).notes);
    } else {
        let rest = b.drop_last();
        law_facts_are_placed_one_by_one(entities, a, rest, f);
        assert((a + b).drop_last() =~= a + rest);
        assert((a + b).last() == b.last());
        assert(place_all(entities, a + b).facts =~= place_all(entities, a).facts + place_all(
            entities,
            b,
        ).facts);
        assert(place_all(entities, a + b).notes =~= place_all(entities, a).notes + place_all(
            entities,
            b,
        ).notes);
    }
}

/// The report begins with what the rules on single facts say, goes on with the
/// descriptions and ends with the orphans.
pub proof fn law_the_report_is_in_order(x: ExtractionView)
    ensures
        ({
            let placed = place_all(x.entities, x.facts);
            let told = description_notes(x.entities, placed.facts, placed.facts.len() as int);
            let orphans = x.entities.filter(
                |e: EntityView| is_orphan(x, lowercase(trimmed(e.name))),
            );
            let (a, b) = (placed.notes.len() as int, (placed.notes.len() + told.len()) as int);
            &&& notes_on(x).len() == b + orphans.len()
            &&& notes_on(x).take(a) == placed.notes
            &&& notes_on(x).subrange(a, b) == told
            &&& forall|i: int|
                0 <= i < orphans.len() ==> notes_on(x)[b + i]
                    == (NormalizationView::OrphanDeclaration {
                    name: trimmed(#[trigger] orphans[i].name),
                })
        }),
{
    let placed = place_all(x.entities, x.facts);
    let told = description_notes(x.entities, placed.facts, placed.facts.len() as int);
    let gone = orphaned(x.entities, x.facts, facts_after(x));
    let orphan = |e: EntityView| is_orphan(x, lowercase(trimmed(e.name)));
    assert forall|e: EntityView| #[trigger] gone(e) == orphan(e) by {
        lemma_orphan(x, lowercase(trimmed(e.name)));
    }
    lemma_same_filter(x.entities, gone, orphan);
    let said = x.entities.filter(gone).map_values(orphan_note());
    let (a, b) = (placed.notes.len() as int, (placed.notes.len() + told.len()) as int);
    assert(notes_on(x) == placed.notes + told + said);
    assert(notes_on(x).take(a) =~= placed.notes);
    assert(notes_on(x).subrange(a, b) =~= told);
    let orphans = x.entities.filter(orphan);
    assert forall|i: int| 0 <= i < orphans.len() implies notes_on(x)[b + i] == (
    NormalizationView::OrphanDeclaration { name: trimmed(#[trigger] orphans[i].name) }) by {
        assert(notes_on(x)[b + i] == said[i]);
        assert(said[i] == orphan_note()(orphans[i]));
    }
}

// ---- Declarations ----

/// One of the facts has a side that is called so, in lower case.
pub open spec fn is_called(
    entities: Seq<EntityView>,
    facts: Seq<FactView>,
    name: Seq<char>,
) -> bool {
    exists|k: int|
        0 <= k < facts.len() && {
            ||| lowercase(subject_name(entities, #[trigger] facts[k])) == name
            ||| object_name(entities, facts[k]) matches Some(o) && lowercase(o) == name
        }
}

/// The facts that were given speak of the name, and none that stays does.
pub open spec fn is_orphan(x: ExtractionView, name: Seq<char>) -> bool {
    is_called(x.entities, x.facts, name) && !is_called(x.entities, normalized(x).facts, name)
}

proof fn lemma_called(entities: Seq<EntityView>, facts: Seq<FactView>, name: Seq<char>)
    ensures
        is_called(entities, facts, name) == referred_to(entities, facts, name),
{
    if is_called(entities, facts, name) {
        let k = choose|k: int|
            0 <= k < facts.len() && {
                ||| lowercase(subject_name(entities, #[trigger] facts[k])) == name
                ||| object_name(entities, facts[k]) matches Some(o) && lowercase(o) == name
            };
        assert(refers_to(entities, facts[k], name));
    }
    if referred_to(entities, facts, name) {
        let k = choose|k: int| 0 <= k < facts.len() && refers_to(entities, #[trigger] facts[k], name);
        assert(lowercase(subject_name(entities, facts[k])) == name || (object_name(
            entities,
            facts[k],
        ) matches Some(o) && lowercase(o) == name));
    }
}

proof fn lemma_orphan(x: ExtractionView, name: Seq<char>)
    ensures
        is_orphan(x, name) == (referred_to(x.entities, x.facts, name) && !referred_to(
            x.entities,
            facts_after(x),
            name,
        )),
{
    lemma_called(x.entities, x.facts, name);
    lemma_called(x.entities, normalized(x).facts, name);
}

/// The declarations stay in order, without the orphans and without any other; what
/// was counted of the passage stays as it was.
pub proof fn law_declarations_stay_unless_orphaned(x: ExtractionView)
    ensures
        normalized(x).entities == x.entities.filter(
            |e: EntityView| !is_orphan(x, lowercase(trimmed(e.name))),
        ),
        normalized(x).skipped_entities == x.skipped_entities,
        normalized(x).skipped_facts == x.skipped_facts,
        normalized(x).truncated == x.truncated,
{
    let stays = still_held(x.entities, x.facts, facts_after(x));
    let kept = |e: EntityView| !is_orphan(x, lowercase(trimmed(e.name)));
    assert forall|e: EntityView| #[trigger] stays(e) == kept(e) by {
        lemma_orphan(x, lowercase(trimmed(e.name)));
    }
    lemma_same_filter(x.entities, stays, kept);
}

/// A declaration that no fact spoke of in the first place stays, and so does every
/// one that a fact which stays speaks of.
pub proof fn law_what_is_spoken_of_stays_declared(x: ExtractionView, k: int)
    requires
        0 <= k < x.entities.len(),
        ({
            let name = lowercase(trimmed(x.entities[k].name));
            !is_called(x.entities, x.facts, name) || is_called(
                x.entities,
                normalized(x).facts,
                name,
            )
        }),
    ensures
        normalized(x).entities.contains(x.entities[k]),
{
    law_declarations_stay_unless_orphaned(x);
    let kept = |e: EntityView| !is_orphan(x, lowercase(trimmed(e.name)));
    crate::normalize_laws::lemma_filter_contains(x.entities, kept, x.entities[k]);
}

// ---- Cutting ----

/// A mark that may close what is kept.
pub open spec fn is_closing_mark(c: char) -> bool {
    c == ',' || c == ';' || c == ':' || c == '、' || c == '，'
}

/// `kept` is what stands before the white space at `at`, without white space at its
/// ends and then without closing marks at its end.
pub open spec fn is_front(value: Seq<char>, at: int, kept: Seq<char>) -> bool {
    let front = trimmed(value.take(at));
    &&& kept.is_prefix_of(front)
    &&& forall|i: int| kept.len() <= i < front.len() ==> is_closing_mark(#[trigger] front[i])
    &&& kept.len() > 0 ==> !is_closing_mark(kept[kept.len() - 1])
}

proof fn lemma_front(value: Seq<char>, at: int)
    ensures
        is_front(value, at, before_cut(value, at)),
{
    let front = trimmed(value.take(at));
    let kept = before_cut(value, at);
    law_trimming_the_end_leaves_the_front(front, closing());
    assert(kept == trim_end_where(front, closing()));
    assert forall|i: int| kept.len() <= i < front.len() implies is_closing_mark(
        #[trigger] front[i],
    ) by {
        assert(closing()(front[i]));
    }
    if kept.len() > 0 {
        assert(!closing()(kept[kept.len() - 1]));
    }
}

proof fn lemma_one_front(value: Seq<char>, at: int, a: Seq<char>, b: Seq<char>)
    requires
        is_front(value, at, a),
        is_front(value, at, b),
    ensures
        a == b,
{
    let front = trimmed(value.take(at));
    if a.len() < b.len() {
        assert(is_closing_mark(front[b.len() - 1]));
        assert(b[b.len() - 1] == front[b.len() - 1]);
    }
    if b.len() < a.len() {
        assert(is_closing_mark(front[a.len() - 1]));
        assert(a[a.len() - 1] == front[a.len() - 1]);
    }
    assert(a =~= b);
}

/// At this white space the value can be cut: what stands before it has a number and
/// stands in the quote.
pub open spec fn can_be_cut(value: Seq<char>, quote: Seq<char>, at: int, kept: Seq<char>) -> bool {
    &&& 0 < at < value.len()
    &&& white_space(value[at])
    &&& is_front(value, at, kept)
    &&& exists|i: int| 0 <= i < kept.len() && numeric(#[trigger] kept[i])
    &&& holds(normal_form(quote), normal_form(kept))
}

/// The tail has a number of its own, and does not stand in the quote.
pub open spec fn is_ungrounded(quote: Seq<char>, rest: Seq<char>) -> bool {
    &&& exists|i: int| 0 <= i < rest.len() && numeric(#[trigger] rest[i])
    &&& !holds(normal_form(quote), normal_form(rest))
}

proof fn lemma_can_be_cut(value: Seq<char>, quote: Seq<char>, at: int)
    ensures
        cuts(value, quote, at) == can_be_cut(value, quote, at, before_cut(value, at)),
        forall|kept: Seq<char>| #[trigger]
            can_be_cut(value, quote, at, kept) ==> kept == before_cut(value, at),
{
    lemma_front(value, at);
    assert forall|kept: Seq<char>| #[trigger] can_be_cut(value, quote, at, kept) implies kept
        == before_cut(value, at) by {
        lemma_one_front(value, at, kept, before_cut(value, at));
    }
    let kept = before_cut(value, at);
    if can_be_cut(value, quote, at, kept) {
        let i = choose|i: int| 0 <= i < kept.len() && numeric(#[trigger] kept[i]);
        assert(has_numeric(kept));
    }
}

proof fn lemma_last_cut(value: Seq<char>, quote: Seq<char>, end: int)
    ensures
        last_cut(value, quote, end) is None <==> forall|at: int|
            0 <= at < end ==> !#[trigger] cuts(value, quote, at),
        last_cut(value, quote, end) matches Some(at) ==> 0 <= at < end && cuts(value, quote, at)
            && forall|later: int| at < later < end ==> !#[trigger] cuts(value, quote, later),
    decreases end,
{
    if end > 0 {
        lemma_last_cut(value, quote, end - 1);
    }
}

/// A cut is made at the last white space before which a figure of the quote stands:
/// what stands before it is kept, and what comes after it, without white space at
/// its ends, is dropped.
pub proof fn law_a_cut_keeps_all_that_the_quote_holds(value: Seq<char>, quote: Seq<char>) -> (at: int)
    requires
        tail_of(value, quote) is Some,
    ensures
        tail_of(value, quote) matches Some((kept, rest)) && {
            &&& can_be_cut(value, quote, at, kept)
            &&& rest == trimmed(value.skip(at))
            &&& is_ungrounded(quote, rest)
            &&& forall|later: int, more: Seq<char>|
                later > at ==> !#[trigger] can_be_cut(value, quote, later, more)
            &&& words(quote).len() > 0
            &&& !holds(normal_form(quote), normal_form(value))
        },
{
    let end = value.len() as int;
    lemma_last_cut(value, quote, end);
    let at = last_cut(value, quote, end)->Some_0;
    lemma_can_be_cut(value, quote, at);
    let rest = after_cut(value, at);
    assert(has_numeric(rest));
    assert forall|later: int, more: Seq<char>| later > at implies !#[trigger] can_be_cut(
        value,
        quote,
        later,
        more,
    ) by {
        lemma_can_be_cut(value, quote, later);
    }
    at
}

/// A value that can be cut is, unless the quote holds all of it or nothing of its
/// own follows the last cut.
pub proof fn law_a_value_that_can_be_cut_is(
    value: Seq<char>,
    quote: Seq<char>,
    at: int,
    kept: Seq<char>,
)
    requires
        can_be_cut(value, quote, at, kept),
        forall|later: int, more: Seq<char>|
            later > at ==> !#[trigger] can_be_cut(value, quote, later, more),
        folded(quote).len() > 0,
        !holds(normal_form(quote), normal_form(value)),
    ensures
        is_ungrounded(quote, trimmed(value.skip(at))) ==> tail_of(value, quote) == Some(
            (kept, trimmed(value.skip(at))),
        ),
        !is_ungrounded(quote, trimmed(value.skip(at))) ==> tail_of(value, quote) is None,
{
    let end = value.len() as int;
    lemma_last_cut(value, quote, end);
    lemma_can_be_cut(value, quote, at);
    assert(cuts(value, quote, at));
    assert forall|later: int| later > at implies !#[trigger] cuts(value, quote, later) by {
        lemma_can_be_cut(value, quote, later);
    }
    let found = last_cut(value, quote, end)->Some_0;
    assert(found == at);
    let rest = after_cut(value, at);
    if is_ungrounded(quote, rest) {
        assert(has_numeric(rest));
    }
}

/// The form in which texts are compared is the words in lower case with one space
/// between them.
pub proof fn law_texts_are_compared_by_their_words(s: Seq<char>)
    ensures
        normal_form(s) == lowercase(joined(words(s), seq![' '])),
{
}

} // verus!
