//! Normalising again: what a first pass has brought into shape, a second one
//! leaves as it is.

use vstd::prelude::*;

use crate::chars::{alphanumeric, numeric};
use crate::extraction::{EntityView, ExtractionView, FactView};
use crate::normalize::{
    by_handle, cut_in, describes, description_notes, facts_after, grounded, handle_name,
    has_numeric, head_from, head_of, normalized, notes_on, object_name, orphaned, place,
    place_all, place_grounded, quote_of, referred_to, refers_to, same_edge_to, says_nothing,
    still_held, subject_name, undescribing, values_on, written_value,
};
use crate::normalize_laws::{
    law_cut_is_grounded, law_unreported_means_unchanged, lemma_filter_contains,
    lemma_place_all_unchanged, lemma_undescribing_unchanged,
};
use crate::strings::{lowercase, trimmed};

verus! {

/// No fact has an attribute that is a value.
pub open spec fn without_figures(facts: Seq<FactView>) -> bool {
    forall|i: int| 0 <= i < facts.len() ==> values_on(#[trigger] facts[i]).len() == 0
}

/// Once an extraction without figures on its edges has been normalised, a second
/// pass reports nothing and changes nothing.
pub proof fn law_a_second_pass_changes_nothing(x: ExtractionView)
    requires
        without_figures(x.facts),
    ensures
        notes_on(normalized(x)).len() == 0,
        normalized(normalized(x)) == normalized(x),
{
    let y = normalized(x);
    let placed = place_all(x.entities, x.facts).facts;
    let n = placed.len() as int;
    let m = y.facts.len() as int;
    lemma_placed_are_settled(x.entities, x.facts);
    assert forall|k: int| 0 <= k < m implies place(
        y.entities,
        #[trigger] y.facts[k],
    ).notes.len() == 0 by {
        lemma_origin(x.entities, placed, n, k);
        assert(settled(x.entities, placed[origin(x.entities, placed, n, k)]));
        lemma_names_stay(x, k);
    }
    lemma_no_place_notes(y.entities, y.facts);
    lemma_place_all_unchanged(y.entities, y.facts);
    assert forall|k: int| 0 <= k < m implies #[trigger] head_of(
        y.entities,
        y.facts,
        k,
    ) is None by {
        lemma_describes_nothing(x, k, 0);
    }
    lemma_no_description_notes(y.entities, y.facts, m);
    lemma_undescribing_unchanged(y.entities, y.facts, m);
    assert(y.facts.take(m) =~= y.facts);
    assert(facts_after(y) == y.facts);
    let gone = orphaned(y.entities, y.facts, y.facts);
    assert(y.entities.filter(gone).len() == 0) by {
        if y.entities.filter(gone).len() > 0 {
            let e = y.entities.filter(gone)[0];
            lemma_filter_contains(y.entities, gone, e);
            assert(y.entities.filter(gone).contains(e));
            assert(gone(e));
        }
    }
    law_unreported_means_unchanged(y);
}

// ---- Facts that are in shape ----

/// The first rules leave the fact as it is.
spec fn settled(entities: Seq<EntityView>, f: FactView) -> bool {
    place(entities, f).notes.len() == 0
}

proof fn lemma_placed_are_settled(entities: Seq<EntityView>, facts: Seq<FactView>)
    requires
        without_figures(facts),
    ensures
        forall|i: int|
            0 <= i < place_all(entities, facts).facts.len() ==> settled(
                entities,
                #[trigger] place_all(entities, facts).facts[i],
            ),
    decreases facts.len(),
{
    if facts.len() > 0 {
        let rest = facts.drop_last();
        let g = facts.last();
        let f = grounded(g);
        let before = place_all(entities, rest).facts;
        let all = place_all(entities, facts).facts;
        assert(without_figures(rest)) by {
            assert forall|i: int| 0 <= i < rest.len() implies values_on(
                #[trigger] rest[i],
            ).len() == 0 by {
                assert(rest[i] == facts[i]);
            }
        }
        lemma_placed_are_settled(entities, rest);
        assert(values_on(facts[facts.len() - 1]).len() == 0);
        assert(values_on(f) == values_on(g));
        assert forall|i: int| 0 <= i < all.len() implies settled(
            entities,
            #[trigger] all[i],
        ) by {
            if i < before.len() {
                assert(all[i] == before[i]);
            } else {
                assert(all[i] == place(entities, g).facts[i - before.len()]);
                assert(place(entities, g).facts.len() > 0);
                assert(all[i] == f);
                lemma_grounded_again(g);
                assert(place_grounded(entities, f).notes.len() == 0);
            }
        }
    }
}

/// A value that was cut or left alone is not cut again, and still says something.
proof fn lemma_grounded_again(g: FactView)
    requires
        !(written_value(g) matches Some(w) && says_nothing(w)),
    ensures
        cut_in(grounded(g)) is None,
        !(written_value(grounded(g)) matches Some(w) && says_nothing(w)),
{
    if cut_in(g) is Some {
        let w = written_value(g)->Some_0;
        law_cut_is_grounded(w, quote_of(g));
        let kept = written_value(grounded(g))->Some_0;
        assert(has_numeric(kept));
        let i = choose|i: int| 0 <= i < kept.len() && numeric(#[trigger] kept[i]);
        assert(alphanumeric(kept[i]));
    }
}

proof fn lemma_no_place_notes(entities: Seq<EntityView>, facts: Seq<FactView>)
    requires
        forall|i: int|
            0 <= i < facts.len() ==> place(entities, #[trigger] facts[i]).notes.len() == 0,
    ensures
        place_all(entities, facts).notes.len() == 0,
    decreases facts.len(),
{
    if facts.len() > 0 {
        let rest = facts.drop_last();
        assert forall|i: int| 0 <= i < rest.len() implies place(
            entities,
            #[trigger] rest[i],
        ).notes.len() == 0 by {
            assert(rest[i] == facts[i]);
        }
        lemma_no_place_notes(entities, rest);
        assert(place(entities, facts[facts.len() - 1]).notes.len() == 0);
    }
}

// ---- Names ----

spec fn has_handle(e: EntityView, handle: Seq<char>) -> bool {
    e.local_id matches Some(id) && trimmed(id) == trimmed(handle)
}

proof fn lemma_by_handle_push(
    entities: Seq<EntityView>,
    e: EntityView,
    handle: Seq<char>,
    k: int,
)
    requires
        0 <= k <= entities.len(),
    ensures
        by_handle(entities.push(e), handle, k) == if by_handle(entities, handle, k) is Some {
            by_handle(entities, handle, k)
        } else if has_handle(e, handle) {
            Some(trimmed(e.name))
        } else {
            None
        },
    decreases entities.len() - k,
{
    let more = entities.push(e);
    if k < entities.len() {
        assert(more[k] == entities[k]);
        lemma_by_handle_push(entities, e, handle, k + 1);
    } else {
        assert(more[k] == e);
        assert(by_handle(more, handle, k + 1) is None);
    }
}

/// Entities can go without a change to what a handle stands for, if those of
/// that name stay.
proof fn lemma_by_handle_filter(
    entities: Seq<EntityView>,
    stays: spec_fn(EntityView) -> bool,
    handle: Seq<char>,
)
    requires
        by_handle(entities, handle, 0) matches Some(n) ==> forall|i: int|
            0 <= i < entities.len() && trimmed(entities[i].name) == n ==> stays(
                #[trigger] entities[i],
            ),
    ensures
        by_handle(entities.filter(stays), handle, 0) == by_handle(entities, handle, 0),
    decreases entities.len(),
{
    reveal(Seq::filter);
    if entities.len() > 0 {
        let rest = entities.drop_last();
        let e = entities.last();
        assert(rest.push(e) =~= entities);
        assert(entities[entities.len() - 1] == e);
        lemma_by_handle_push(rest, e, handle, 0);
        if by_handle(rest, handle, 0) is Some {
            let n = by_handle(rest, handle, 0)->Some_0;
            assert forall|i: int| 0 <= i < rest.len() && trimmed(rest[i].name) == n implies stays(
                #[trigger] rest[i],
            ) by {
                assert(rest[i] == entities[i]);
            }
        }
        lemma_by_handle_filter(rest, stays, handle);
        lemma_by_handle_push(rest.filter(stays), e, handle, 0);
    }
}

/// A handle of a side that the facts refer to stands for the same name after the
/// orphans have gone.
proof fn lemma_handle_stays(x: ExtractionView, handle: Option<Seq<char>>)
    requires
        handle_name(x.entities, handle) matches Some(n) ==> referred_to(
            x.entities,
            facts_after(x),
            lowercase(n),
        ),
    ensures
        handle_name(normalized(x).entities, handle) == handle_name(x.entities, handle),
{
    if let Some(h) = handle {
        let stays = still_held(x.entities, x.facts, facts_after(x));
        lemma_by_handle_filter(x.entities, stays, h);
    }
}

/// The sides of a fact that stays are called the same after the orphans have
/// gone.
proof fn lemma_names_stay(x: ExtractionView, k: int)
    requires
        0 <= k < normalized(x).facts.len(),
    ensures
        subject_name(normalized(x).entities, normalized(x).facts[k]) == subject_name(
            x.entities,
            normalized(x).facts[k],
        ),
        object_name(normalized(x).entities, normalized(x).facts[k]) == object_name(
            x.entities,
            normalized(x).facts[k],
        ),
{
    let f = normalized(x).facts[k];
    assert(f == facts_after(x)[k]);
    if handle_name(x.entities, f.subject_ref) is Some {
        let n = handle_name(x.entities, f.subject_ref)->Some_0;
        assert(refers_to(x.entities, facts_after(x)[k], lowercase(n)));
    }
    if handle_name(x.entities, f.object_ref) is Some {
        let n = handle_name(x.entities, f.object_ref)->Some_0;
        assert(refers_to(x.entities, facts_after(x)[k], lowercase(n)));
    }
    lemma_handle_stays(x, f.subject_ref);
    lemma_handle_stays(x, f.object_ref);
}

// ---- Descriptions ----

/// Where the fact with the number `k` among those that describe nothing stood
/// among the first `n`.
spec fn origin(entities: Seq<EntityView>, facts: Seq<FactView>, n: int, k: int) -> int
    decreases n,
{
    if n <= 0 {
        0
    } else if head_of(entities, facts, n - 1) is None && k == undescribing(
        entities,
        facts,
        n - 1,
    ).len() {
        n - 1
    } else {
        origin(entities, facts, n - 1, k)
    }
}

proof fn lemma_origin(entities: Seq<EntityView>, facts: Seq<FactView>, n: int, k: int)
    requires
        0 <= n <= facts.len(),
        0 <= k < undescribing(entities, facts, n).len(),
    ensures
        0 <= origin(entities, facts, n, k) < n,
        facts[origin(entities, facts, n, k)] == undescribing(entities, facts, n)[k],
        head_of(entities, facts, origin(entities, facts, n, k)) is None,
    decreases n,
{
    if n > 0 && !(head_of(entities, facts, n - 1) is None && k == undescribing(
        entities,
        facts,
        n - 1,
    ).len()) {
        lemma_origin(entities, facts, n - 1, k);
    }
}

proof fn lemma_origins_differ(
    entities: Seq<EntityView>,
    facts: Seq<FactView>,
    n: int,
    j: int,
    k: int,
)
    requires
        0 <= n <= facts.len(),
        0 <= j < k < undescribing(entities, facts, n).len(),
    ensures
        origin(entities, facts, n, j) < origin(entities, facts, n, k),
    decreases n,
{
    if n > 0 {
        let before = undescribing(entities, facts, n - 1);
        if head_of(entities, facts, n - 1) is None && k == before.len() {
            lemma_origin(entities, facts, n - 1, j);
        } else {
            lemma_origins_differ(entities, facts, n - 1, j, k);
        }
    }
}

proof fn lemma_head_found(
    entities: Seq<EntityView>,
    facts: Seq<FactView>,
    i: int,
    k: int,
    m: int,
)
    requires
        0 <= k <= m < entities.len(),
        describes(entities, facts, i, trimmed(entities[m].name)),
    ensures
        head_from(entities, facts, i, k) is Some,
    decreases m - k,
{
    if k < m && !describes(entities, facts, i, trimmed(entities[k].name)) {
        lemma_head_found(entities, facts, i, k + 1, m);
    }
}

/// What describes a declared entity after the orphans have gone described it
/// before.
proof fn lemma_described_before(x: ExtractionView, k: int, head: Seq<char>)
    requires
        0 <= k < normalized(x).facts.len(),
        describes(normalized(x).entities, normalized(x).facts, k, head),
    ensures
        ({
            let placed = place_all(x.entities, x.facts).facts;
            describes(
                x.entities,
                placed,
                origin(x.entities, placed, placed.len() as int, k),
                head,
            )
        }),
{
    let y = normalized(x);
    let placed = place_all(x.entities, x.facts).facts;
    let n = placed.len() as int;
    let j = choose|j: int|
        0 <= j < y.facts.len() && #[trigger] same_edge_to(y.entities, y.facts, k, j, head);
    lemma_origin(x.entities, placed, n, k);
    lemma_origin(x.entities, placed, n, j);
    if j < k {
        lemma_origins_differ(x.entities, placed, n, j, k);
    } else {
        lemma_origins_differ(x.entities, placed, n, k, j);
    }
    lemma_names_stay(x, k);
    lemma_names_stay(x, j);
    let i = origin(x.entities, placed, n, k);
    let o = origin(x.entities, placed, n, j);
    assert(same_edge_to(x.entities, placed, i, o, head));
}

proof fn lemma_describes_nothing(x: ExtractionView, k: int, m: int)
    requires
        0 <= k < normalized(x).facts.len(),
        0 <= m <= normalized(x).entities.len(),
    ensures
        head_from(normalized(x).entities, normalized(x).facts, k, m) is None,
    decreases normalized(x).entities.len() - m,
{
    let y = normalized(x);
    let placed = place_all(x.entities, x.facts).facts;
    let n = placed.len() as int;
    if m < y.entities.len() {
        let e = y.entities[m];
        if describes(y.entities, y.facts, k, trimmed(e.name)) {
            lemma_described_before(x, k, trimmed(e.name));
            let stays = still_held(x.entities, x.facts, facts_after(x));
            lemma_filter_contains(x.entities, stays, e);
            assert(y.entities.contains(e));
            let at = x.entities.index_of(e);
            lemma_origin(x.entities, placed, n, k);
            lemma_head_found(x.entities, placed, origin(x.entities, placed, n, k), 0, at);
        }
        lemma_describes_nothing(x, k, m + 1);
    }
}

proof fn lemma_no_description_notes(entities: Seq<EntityView>, facts: Seq<FactView>, n: int)
    requires
        0 <= n <= facts.len(),
        forall|i: int| 0 <= i < facts.len() ==> #[trigger] head_of(entities, facts, i) is None,
    ensures
        description_notes(entities, facts, n).len() == 0,
    decreases n,
{
    if n > 0 {
        lemma_no_description_notes(entities, facts, n - 1);
    }
}

} // verus!
