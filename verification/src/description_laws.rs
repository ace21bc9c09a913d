//! Laws of the facts that only describe a declared entity: which of them go, what
//! has to stand beside them, and what is said of it.

use vstd::prelude::*;

use crate::chars::ascii_alphanumeric;
use crate::extraction::{EntityView, ExtractionView, FactView};
use crate::normalize::{
    describes, description_notes, facts_after, found_free, head_from, head_of, normal_form,
    normalized, notes_on, object_name, object_of, place_all, same_edge_to, same_sentence,
    stands_free, subject_name, subject_of, undescribing, wraps, NormalizationView,
};
use crate::strings::{holds, occurs_at, same_ignoring_ascii_case, trimmed};

verus! {

/// The facts that the rules on single facts leave.
pub open spec fn placed_in(x: ExtractionView) -> Seq<FactView> {
    place_all(x.entities, x.facts).facts
}

/// Of the two quotes, an absent one being empty, one stands in the other, but for
/// white space and case.
pub open spec fn quotes_overlap(f: FactView, g: FactView) -> bool {
    let a = match f.quote {
        Some(q) => normal_form(q),
        None => normal_form(Seq::empty()),
    };
    let b = match g.quote {
        Some(q) => normal_form(q),
        None => normal_form(Seq::empty()),
    };
    holds(a, b) || holds(b, a)
}

/// Beside the edge `f`, the edge `g` has its predicate, its subject and its
/// sentence, and goes to `head`, which the object of `f` wraps.
pub open spec fn edge_beside(
    entities: Seq<EntityView>,
    f: FactView,
    g: FactView,
    head: Seq<char>,
) -> bool {
    &&& same_ignoring_ascii_case(g.predicate, f.predicate)
    &&& subject_name(entities, g) == subject_name(entities, f)
    &&& object_name(entities, g) matches Some(o) && o.len() > 0 && same_ignoring_ascii_case(
        o,
        head,
    )
    &&& object_name(entities, f) matches Some(name) && name.len() > 0 && wraps(name, head)
    &&& quotes_overlap(f, g)
}

/// The fact at `i` only describes the entity at `k`: another fact is the edge to
/// that entity itself.
pub open spec fn only_describes(
    entities: Seq<EntityView>,
    facts: Seq<FactView>,
    i: int,
    k: int,
) -> bool {
    &&& 0 <= k < entities.len()
    &&& exists|j: int|
        0 <= j < facts.len() && j != i && #[trigger] edge_beside(
            entities,
            facts[i],
            facts[j],
            trimmed(entities[k].name),
        )
}

pub open spec fn describes_some(entities: Seq<EntityView>, facts: Seq<FactView>, i: int) -> bool {
    exists|k: int| #[trigger] only_describes(entities, facts, i, k)
}

proof fn lemma_same_rule(entities: Seq<EntityView>, facts: Seq<FactView>, i: int, k: int)
    requires
        0 <= i < facts.len(),
        0 <= k < entities.len(),
    ensures
        describes(entities, facts, i, trimmed(entities[k].name)) == only_describes(
            entities,
            facts,
            i,
            k,
        ),
{
    let head = trimmed(entities[k].name);
    if describes(entities, facts, i, head) {
        let j = choose|j: int|
            0 <= j < facts.len() && #[trigger] same_edge_to(entities, facts, i, j, head);
        assert(subject_of(entities, facts[j]) == subject_of(entities, facts[i]));
        assert(subject_name(entities, facts[j]) =~= subject_name(entities, facts[i]));
        assert(same_sentence(facts[i], facts[j]));
        assert(edge_beside(entities, facts[i], facts[j], head));
    }
    if only_describes(entities, facts, i, k) {
        let j = choose|j: int|
            0 <= j < facts.len() && j != i && #[trigger] edge_beside(
                entities,
                facts[i],
                facts[j],
                head,
            );
        assert(same_edge_to(entities, facts, i, j, head));
    }
}

/// The head is the name of the first declared entity that the fact describes.
proof fn lemma_first_head(entities: Seq<EntityView>, facts: Seq<FactView>, i: int, k: int)
    requires
        0 <= i < facts.len(),
        0 <= k <= entities.len(),
    ensures
        head_from(entities, facts, i, k) is None <==> forall|m: int|
            k <= m < entities.len() ==> !#[trigger] only_describes(entities, facts, i, m),
        head_from(entities, facts, i, k) matches Some(head) ==> exists|m: int|
            k <= m < entities.len() && #[trigger] only_describes(entities, facts, i, m) && head
                == trimmed(entities[m].name) && forall|e: int|
                k <= e < m ==> !#[trigger] only_describes(entities, facts, i, e),
    decreases entities.len() - k,
{
    if k < entities.len() {
        lemma_same_rule(entities, facts, i, k);
        lemma_first_head(entities, facts, i, k + 1);
        if only_describes(entities, facts, i, k) {
            assert(head_from(entities, facts, i, k) == Some(trimmed(entities[k].name)));
        } else {
            assert(head_from(entities, facts, i, k) == head_from(entities, facts, i, k + 1));
            if head_from(entities, facts, i, k) is None {
                assert forall|m: int| k <= m < entities.len() implies !#[trigger] only_describes(
                    entities,
                    facts,
                    i,
                    m,
                ) by {}
            } else {
                let head = head_from(entities, facts, i, k)->Some_0;
                let m = choose|m: int|
                    k + 1 <= m < entities.len() && #[trigger] only_describes(
                        entities,
                        facts,
                        i,
                        m,
                    ) && head == trimmed(entities[m].name) && forall|e: int|
                        k + 1 <= e < m ==> !#[trigger] only_describes(entities, facts, i, e);
                assert forall|e: int| k <= e < m implies !#[trigger] only_describes(
                    entities,
                    facts,
                    i,
                    e,
                ) by {}
            }
        }
    }
}

proof fn lemma_head_is_none(entities: Seq<EntityView>, facts: Seq<FactView>, i: int)
    requires
        0 <= i < facts.len(),
    ensures
        head_of(entities, facts, i) is None <==> !describes_some(entities, facts, i),
{
    lemma_first_head(entities, facts, i, 0);
}

/// The numbers of the facts among the first `n` that describe nothing declared.
spec fn kept_numbers(entities: Seq<EntityView>, facts: Seq<FactView>, n: int) -> Seq<int>
    decreases n,
{
    if n <= 0 {
        Seq::empty()
    } else if head_of(entities, facts, n - 1) is None {
        kept_numbers(entities, facts, n - 1).push(n - 1)
    } else {
        kept_numbers(entities, facts, n - 1)
    }
}

/// These numbers pick the facts of the result, in order, out of those given.
pub open spec fn picks(at: Seq<int>, facts: Seq<FactView>, result: Seq<FactView>) -> bool {
    &&& at.len() == result.len()
    &&& forall|m: int|
        0 <= m < at.len() ==> 0 <= #[trigger] at[m] < facts.len() && result[m] == facts[at[m]]
    &&& forall|m: int, n: int| 0 <= m < n < at.len() ==> at[m] < at[n]
}

proof fn lemma_kept_numbers(entities: Seq<EntityView>, facts: Seq<FactView>, n: int)
    requires
        0 <= n <= facts.len(),
    ensures
        ({
            let at = kept_numbers(entities, facts, n);
            let result = undescribing(entities, facts, n);
            &&& at.len() == result.len()
            &&& forall|m: int|
                0 <= m < at.len() ==> 0 <= #[trigger] at[m] < n && result[m] == facts[at[m]]
            &&& forall|m: int, p: int| 0 <= m < p < at.len() ==> at[m] < at[p]
            &&& forall|i: int|
                0 <= i < n ==> (#[trigger] at.contains(i) <==> head_of(
                    entities,
                    facts,
                    i,
                ) is None)
        }),
    decreases n,
{
    if n > 0 {
        lemma_kept_numbers(entities, facts, n - 1);
        let before = kept_numbers(entities, facts, n - 1);
        let at = kept_numbers(entities, facts, n);
        assert forall|i: int| 0 <= i < n implies (#[trigger] at.contains(i) <==> head_of(
            entities,
            facts,
            i,
        ) is None) by {
            if i < n - 1 {
                assert(before.contains(i) <==> head_of(entities, facts, i) is None);
                if before.contains(i) {
                    let m = before.index_of(i);
                    assert(at[m] == i);
                }
                if at.contains(i) {
                    let m = at.index_of(i);
                    if m < before.len() {
                        assert(before[m] == i);
                    }
                }
            } else {
                if head_of(entities, facts, i) is None {
                    assert(at[before.len() as int] == i);
                } else if at.contains(i) {
                    let m = at.index_of(i);
                    assert(before[m] == i);
                }
            }
        }
    }
}

/// The facts that stay are the placed ones, each once and in order, without those
/// that only describe a declared entity.
pub proof fn law_only_descriptions_go(x: ExtractionView) -> (at: Seq<int>)
    ensures
        picks(at, placed_in(x), normalized(x).facts),
        forall|i: int|
            0 <= i < placed_in(x).len() ==> (#[trigger] at.contains(i) <==> !describes_some(
                x.entities,
                placed_in(x),
                i,
            )),
{
    let placed = placed_in(x);
    let n = placed.len() as int;
    lemma_kept_numbers(x.entities, placed, n);
    let at = kept_numbers(x.entities, placed, n);
    assert forall|i: int| 0 <= i < placed.len() implies (#[trigger] at.contains(i)
        <==> !describes_some(x.entities, placed, i)) by {
        lemma_head_is_none(x.entities, placed, i);
    }
    at
}

/// A fact that goes has beside it another one with the same subject, the same
/// predicate up to ASCII case and a quote of the same sentence, whose object is a
/// declared entity; its own object is longer than that name and holds it.
pub proof fn law_a_description_has_its_edge_beside_it(x: ExtractionView, i: int) -> (r: (int, int))
    requires
        0 <= i < placed_in(x).len(),
        !normalized(x).facts.contains(placed_in(x)[i]),
    ensures
        ({
            let f = placed_in(x)[i];
            let g = placed_in(x)[r.0];
            let head = trimmed(x.entities[r.1].name);
            &&& 0 <= r.0 < placed_in(x).len() && r.0 != i
            &&& 0 <= r.1 < x.entities.len()
            &&& same_ignoring_ascii_case(g.predicate, f.predicate)
            &&& subject_name(x.entities, g) == subject_name(x.entities, f)
            &&& quotes_overlap(f, g)
            &&& object_name(x.entities, g) matches Some(o) && same_ignoring_ascii_case(o, head)
            &&& object_name(x.entities, f) matches Some(o) && normal_form(o).len() > normal_form(
                head,
            ).len() && holds(normal_form(o), normal_form(head))
        }),
{
    let placed = placed_in(x);
    let at = law_only_descriptions_go(x);
    if at.contains(i) {
        let m = at.index_of(i);
        assert(normalized(x).facts[m] == placed[i]);
    }
    let k = choose|k: int| #[trigger] only_describes(x.entities, placed, i, k);
    let head = trimmed(x.entities[k].name);
    let j = choose|j: int|
        0 <= j < placed.len() && j != i && #[trigger] edge_beside(
            x.entities,
            placed[i],
            placed[j],
            head,
        );
    let name = object_name(x.entities, placed[i])->Some_0;
    law_a_wrapped_name_stands_free(name, head, 0);
    (j, k)
}

/// A fact whose predicate no other placed fact has, up to ASCII case, stays. So
/// does one whose subject no other has, one whose quote shares nothing with the
/// others, and one without an object.
pub proof fn law_a_fact_with_nothing_beside_it_stays(x: ExtractionView, i: int)
    requires
        0 <= i < placed_in(x).len(),
        ({
            let f = placed_in(x)[i];
            let others = |j: int| 0 <= j < placed_in(x).len() && j != i;
            ||| forall|j: int|
                #[trigger] others(j) ==> !same_ignoring_ascii_case(
                    placed_in(x)[j].predicate,
                    f.predicate,
                )
            ||| forall|j: int|
                #[trigger] others(j) ==> subject_name(x.entities, placed_in(x)[j])
                    != subject_name(x.entities, f)
            ||| forall|j: int| #[trigger] others(j) ==> !quotes_overlap(f, placed_in(x)[j])
            ||| object_name(x.entities, f) is None
        }),
    ensures
        normalized(x).facts.contains(placed_in(x)[i]),
{
    if !normalized(x).facts.contains(placed_in(x)[i]) {
        let r = law_a_description_has_its_edge_beside_it(x, i);
        let others = |j: int| 0 <= j < placed_in(x).len() && j != i;
        assert(others(r.0));
    }
}

/// Every fact that goes as a description is reported with its predicate, its
/// object and the declared name that it describes, the first in the order of the
/// declarations.
pub proof fn law_a_description_is_reported(x: ExtractionView, i: int, k: int)
    requires
        0 <= i < placed_in(x).len(),
        only_describes(x.entities, placed_in(x), i, k),
        forall|e: int| 0 <= e < k ==> !only_describes(x.entities, placed_in(x), i, e),
    ensures
        notes_on(x).contains(
            NormalizationView::ObjectDescribesDeclared {
                predicate: placed_in(x)[i].predicate,
                name: object_name(x.entities, placed_in(x)[i])->Some_0,
                head: trimmed(x.entities[k].name),
            },
        ),
{
    let placed = placed_in(x);
    lemma_first_head(x.entities, placed, i, 0);
    assert(head_of(x.entities, placed, i) == Some(trimmed(x.entities[k].name)));
    lemma_described_is_noted(x.entities, placed, placed.len() as int, i);
    let note = NormalizationView::ObjectDescribesDeclared {
        predicate: placed[i].predicate,
        name: object_of(x.entities, placed[i])->0,
        head: trimmed(x.entities[k].name),
    };
    let said = description_notes(x.entities, placed, placed.len() as int);
    let m = said.index_of(note);
    let before = place_all(x.entities, x.facts).notes;
    assert(notes_on(x)[before.len() + m] == note);
    let j = choose|j: int|
        0 <= j < placed.len() && j != i && #[trigger] edge_beside(
            x.entities,
            placed[i],
            placed[j],
            trimmed(x.entities[k].name),
        );
    assert(object_of(x.entities, placed[i]) == object_name(x.entities, placed[i]));
}

proof fn lemma_described_is_noted(
    entities: Seq<EntityView>,
    facts: Seq<FactView>,
    n: int,
    i: int,
)
    requires
        0 <= i < n <= facts.len(),
        head_of(entities, facts, i) is Some,
    ensures
        description_notes(entities, facts, n).contains(
            NormalizationView::ObjectDescribesDeclared {
                predicate: facts[i].predicate,
                name: object_of(entities, facts[i])->0,
                head: head_of(entities, facts, i)->Some_0,
            },
        ),
    decreases n,
{
    let note = NormalizationView::ObjectDescribesDeclared {
        predicate: facts[i].predicate,
        name: object_of(entities, facts[i])->0,
        head: head_of(entities, facts, i)->Some_0,
    };
    let before = description_notes(entities, facts, n - 1);
    let now = description_notes(entities, facts, n);
    if i < n - 1 {
        lemma_described_is_noted(entities, facts, n - 1, i);
        let m = before.index_of(note);
        assert(now[m] == note);
    } else {
        assert(now[before.len() as int] == note);
    }
}

/// Only descriptions are reported as such: there are as many of these notes as
/// facts that go.
pub proof fn law_as_many_descriptions_are_reported_as_go(x: ExtractionView)
    ensures
        normalized(x).facts.len() + description_notes(
            x.entities,
            placed_in(x),
            placed_in(x).len() as int,
        ).len() == placed_in(x).len(),
{
    lemma_notes_and_facts(x.entities, placed_in(x), placed_in(x).len() as int);
    assert(normalized(x).facts == facts_after(x));
}

proof fn lemma_notes_and_facts(entities: Seq<EntityView>, facts: Seq<FactView>, n: int)
    requires
        0 <= n,
    ensures
        undescribing(entities, facts, n).len() + description_notes(entities, facts, n).len() == n,
    decreases n,
{
    if n > 0 {
        lemma_notes_and_facts(entities, facts, n - 1);
    }
}

// ---- Wrapped names ----

/// No ASCII letter or digit is glued to an end of the name at `at` that is one
/// itself.
pub open spec fn unglued(outer: Seq<char>, inner: Seq<char>, at: int) -> bool {
    let end = at + inner.len();
    &&& 0 < at && ascii_alphanumeric(inner[0]) ==> !ascii_alphanumeric(outer[at - 1])
    &&& end < outer.len() && ascii_alphanumeric(inner[inner.len() - 1]) ==> !ascii_alphanumeric(
        outer[end],
    )
}

/// A name that wraps another is longer, and the other stands in it without being a
/// part of a longer word; an empty name is wrapped by none, and none wraps itself.
/// Where the first occurrence stands so, the name is wrapped.
pub proof fn law_a_wrapped_name_stands_free(outer: Seq<char>, inner: Seq<char>, first: int)
    ensures
        wraps(outer, inner) ==> {
            let (o, i) = (normal_form(outer), normal_form(inner));
            &&& 0 < i.len() < o.len()
            &&& holds(o, i)
            &&& exists|at: int| #[trigger] occurs_at(o, i, at) && unglued(o, i, at)
        },
        normal_form(outer) == normal_form(inner) ==> !wraps(outer, inner),
        ({
            let (o, i) = (normal_form(outer), normal_form(inner));
            &&& 0 < i.len() < o.len()
            &&& occurs_at(o, i, first)
            &&& unglued(o, i, first)
            &&& forall|b: int| 0 <= b < first ==> !occurs_at(o, i, b)
        }) ==> wraps(outer, inner),
{
    let (o, i) = (normal_form(outer), normal_form(inner));
    if wraps(outer, inner) {
        lemma_found_stands(o, i, 0);
        let at = choose|at: int| #[trigger] occurs_at(o, i, at) && unglued(o, i, at);
        assert(occurs_at(o, i, at));
    }
    if 0 < i.len() < o.len() && occurs_at(o, i, first) && unglued(o, i, first) && forall|b: int|
        0 <= b < first ==> !occurs_at(o, i, b) {
        lemma_first_is_found(o, i, 0, first);
    }
}

proof fn lemma_found_stands(outer: Seq<char>, inner: Seq<char>, from: int)
    requires
        found_free(outer, inner, from),
    ensures
        exists|at: int| #[trigger] occurs_at(outer, inner, at) && unglued(outer, inner, at),
    decreases outer.len() - from,
{
    if occurs_at(outer, inner, from) && stands_free(outer, inner, from) {
        assert(unglued(outer, inner, from));
    } else if occurs_at(outer, inner, from) {
        lemma_found_stands(outer, inner, (from + inner.len()) as int);
    } else {
        lemma_found_stands(outer, inner, from + 1);
    }
}

proof fn lemma_first_is_found(outer: Seq<char>, inner: Seq<char>, from: int, at: int)
    requires
        0 <= from <= at,
        inner.len() > 0,
        occurs_at(outer, inner, at),
        unglued(outer, inner, at),
        forall|b: int| from <= b < at ==> !occurs_at(outer, inner, b),
    ensures
        found_free(outer, inner, from),
    decreases at - from,
{
    if from < at {
        assert(!occurs_at(outer, inner, from));
        lemma_first_is_found(outer, inner, from + 1, at);
    } else {
        assert(stands_free(outer, inner, at));
    }
}

} // verus!
