//! What holds of every normalised extraction.

use vstd::prelude::*;

use crate::chars::white_space;
use crate::extraction::{EntityView, ExtractionView, FactView};
use crate::moment::contract_time;
use crate::normalize::{
    cut_in, cut_notes, cuts, description_notes, dotted, facts_after, grounded, has_numeric,
    last_cut, normal_form, normalized, notes_on, object_of, orphan_note, orphaned, place,
    place_all, place_grounded, quote_of, referred_to, says_nothing, still_held, subject_name,
    tail_of, undescribing, values_on, written_value, NormalizationView,
};
use crate::strings::{
    all_words, folded, holds, joined, law_a_blank_text_folds_to_nothing,
    law_folding_keeps_the_words, law_joined_words_are_folded, lowercase, single_spaced, trimmed,
    words,
};

verus! {

// ---- What is not reported was not done ----

/// An extraction on which nothing is reported comes out as it went in.
pub proof fn law_unreported_means_unchanged(x: ExtractionView)
    requires
        notes_on(x).len() == 0,
    ensures
        normalized(x) == x,
{
    let placed = place_all(x.entities, x.facts);
    lemma_place_all_unchanged(x.entities, x.facts);
    lemma_undescribing_unchanged(x.entities, placed.facts, placed.facts.len() as int);
    assert(placed.facts.take(placed.facts.len() as int) =~= placed.facts);
    let gone = orphaned(x.entities, x.facts, facts_after(x));
    let stays = still_held(x.entities, x.facts, facts_after(x));
    assert(x.entities.filter(gone).map_values(orphan_note()).len() == 0);
    lemma_none_gone(x.entities, gone, stays);
}

pub(crate) proof fn lemma_place_all_unchanged(entities: Seq<EntityView>, facts: Seq<FactView>)
    requires
        place_all(entities, facts).notes.len() == 0,
    ensures
        place_all(entities, facts).facts == facts,
    decreases facts.len(),
{
    if facts.len() > 0 {
        let last = facts.last();
        lemma_place_all_unchanged(entities, facts.drop_last());
        assert(place(entities, last).notes.len() == 0);
        assert(grounded(last) == last);
        assert(place(entities, last).facts =~= seq![last]);
        assert(facts.drop_last() + seq![last] =~= facts);
    }
}

pub(crate) proof fn lemma_undescribing_unchanged(entities: Seq<EntityView>, facts: Seq<FactView>, n: int)
    requires
        description_notes(entities, facts, n).len() == 0,
        0 <= n <= facts.len(),
    ensures
        undescribing(entities, facts, n) == facts.take(n),
    decreases n,
{
    if n > 0 {
        lemma_undescribing_unchanged(entities, facts, n - 1);
        assert(facts.take(n) =~= facts.take(n - 1).push(facts[n - 1]));
    } else {
        assert(facts.take(0) =~= Seq::empty());
    }
}

proof fn lemma_none_gone<A>(s: Seq<A>, gone: spec_fn(A) -> bool, stays: spec_fn(A) -> bool)
    requires
        forall|a: A| #[trigger] stays(a) == !gone(a),
        s.filter(gone).len() == 0,
    ensures
        s.filter(stays) == s,
    decreases s.len(),
{
    reveal(Seq::filter);
    if s.len() > 0 {
        lemma_none_gone(s.drop_last(), gone, stays);
        assert(s.drop_last().push(s.last()) =~= s);
    }
}

// ---- A time is neither a subject nor an object ----

/// No fact that stays has a written time for its subject or its object.
pub proof fn law_no_time_on_either_side(x: ExtractionView, k: int)
    requires
        0 <= k < normalized(x).facts.len(),
    ensures
        !contract_time(subject_name(x.entities, normalized(x).facts[k])),
        object_of(x.entities, normalized(x).facts[k]) matches Some(o) ==> !contract_time(o),
{
    let placed = place_all(x.entities, x.facts).facts;
    lemma_undescribing_from(x.entities, placed, placed.len() as int);
    let f = normalized(x).facts[k];
    assert(placed.contains(f));
    let i = placed.index_of(f);
    lemma_placed_no_time(x.entities, x.facts, i);
}

proof fn lemma_undescribing_from(entities: Seq<EntityView>, facts: Seq<FactView>, n: int)
    requires
        0 <= n <= facts.len(),
    ensures
        forall|k: int|
            0 <= k < undescribing(entities, facts, n).len() ==> facts.contains(
                #[trigger] undescribing(entities, facts, n)[k],
            ),
    decreases n,
{
    if n > 0 {
        lemma_undescribing_from(entities, facts, n - 1);
        let before = undescribing(entities, facts, n - 1);
        let now = undescribing(entities, facts, n);
        assert forall|k: int| 0 <= k < now.len() implies facts.contains(#[trigger] now[k]) by {
            if k < before.len() {
                assert(now[k] == before[k]);
            } else {
                assert(now[k] == facts[n - 1]);
            }
        }
    }
}

proof fn lemma_placed_no_time(entities: Seq<EntityView>, facts: Seq<FactView>, k: int)
    requires
        0 <= k < place_all(entities, facts).facts.len(),
    ensures
        !contract_time(subject_name(entities, place_all(entities, facts).facts[k])),
        object_of(entities, place_all(entities, facts).facts[k]) matches Some(o)
            ==> !contract_time(o),
    decreases facts.len(),
{
    if facts.len() > 0 {
        let before = place_all(entities, facts.drop_last()).facts;
        if k < before.len() {
            lemma_placed_no_time(entities, facts.drop_last(), k);
        } else {
            let f = grounded(facts.last());
            let j = k - before.len();
            assert(place_all(entities, facts).facts[k] == place(entities, facts.last()).facts[j]);
            assert(place(entities, facts.last()).facts == place_grounded(entities, f).facts);
        }
    }
}

// ---- The form in which texts are compared ----

/// Lower-casing the folded text lower-cases its words one by one, and what comes
/// of a word is a word.
pub open spec fn lowers_word_by_word(s: Seq<char>) -> bool {
    let lowered = words(s).map_values(|w: Seq<char>| lowercase(w));
    all_words(lowered) && normal_form(s) == joined(lowered, seq![' '])
}

/// The normal form is that of the words alone: white space around them and how
/// much of it stands between them does not matter. Where lower-casing works word
/// by word, the words of the normal form are the lower-cased words in order, with
/// single spaces between them; and where it leaves the normal form as it is, so
/// does taking the normal form again.
pub proof fn law_normal_form_is_of_the_words(s: Seq<char>, t: Seq<char>)
    ensures
        words(s) == words(t) ==> normal_form(s) == normal_form(t),
        normal_form(folded(s)) == normal_form(s),
        lowers_word_by_word(s) ==> {
            &&& words(normal_form(s)) == words(s).map_values(|w: Seq<char>| lowercase(w))
            &&& single_spaced(normal_form(s))
            &&& folded(normal_form(s)) == normal_form(s)
        },
        lowers_word_by_word(s) && lowercase(normal_form(s)) == normal_form(s) ==> normal_form(
            normal_form(s),
        ) == normal_form(s),
{
    law_folding_keeps_the_words(s);
    if lowers_word_by_word(s) {
        law_joined_words_are_folded(words(s).map_values(|w: Seq<char>| lowercase(w)));
    }
}

// ---- What a cut keeps and drops ----

/// What a cut keeps has a number and stands in the quote; what it drops has a
/// number of its own and does not stand there. What was kept is not cut again.
pub proof fn law_cut_is_grounded(value: Seq<char>, quote: Seq<char>)
    requires
        tail_of(value, quote) is Some,
    ensures
        tail_of(value, quote) matches Some((kept, rest)) ==> {
            &&& has_numeric(kept)
            &&& holds(normal_form(quote), normal_form(kept))
            &&& has_numeric(rest)
            &&& !holds(normal_form(quote), normal_form(rest))
            &&& tail_of(kept, quote) is None
        },
{
    lemma_last_cut_cuts(value, quote, value.len() as int);
}

proof fn lemma_last_cut_cuts(value: Seq<char>, quote: Seq<char>, end: int)
    ensures
        last_cut(value, quote, end) matches Some(at) ==> cuts(value, quote, at),
    decreases end,
{
    if end > 0 {
        lemma_last_cut_cuts(value, quote, end - 1);
    }
}

/// Nothing is cut from a value that stands in the quote, nor from what an
/// earlier cut kept, nor where the quote is empty or blank.
pub proof fn law_cutting_once_is_enough(value: Seq<char>, quote: Seq<char>)
    ensures
        holds(normal_form(quote), normal_form(value)) ==> tail_of(value, quote) is None,
        tail_of(value, quote) matches Some((kept, _)) ==> tail_of(kept, quote) is None,
        (forall|i: int| 0 <= i < quote.len() ==> white_space(#[trigger] quote[i])) ==> tail_of(
            value,
            quote,
        ) is None,
{
    if tail_of(value, quote) is Some {
        law_cut_is_grounded(value, quote);
    }
    if forall|i: int| 0 <= i < quote.len() ==> white_space(#[trigger] quote[i]) {
        law_a_blank_text_folds_to_nothing(quote);
    }
}

/// A value that stands in the quote is left alone.
pub proof fn law_grounded_value_is_left_alone(f: FactView)
    requires
        written_value(f) matches Some(w) && holds(
            normal_form(quote_of(f)),
            normal_form(w),
        ),
    ensures
        grounded(f) == f,
        cut_notes(f).len() == 0,
{
}

// ---- Figures on an edge ----

/// Where the object is a written time, every figure on the edge becomes a value
/// of the subject that holds from that time on, and no edge is left.
pub proof fn law_time_object_becomes_validity(entities: Seq<EntityView>, f: FactView, i: int)
    requires
        !contract_time(subject_name(entities, f)),
        object_of(entities, f) matches Some(o) && contract_time(o),
        cut_in(f) is None,
        !(written_value(f) matches Some(w) && says_nothing(w)),
        0 <= i < values_on(f).len(),
    ensures
        place(entities, f).facts.len() == values_on(f).len(),
        ({
            let v = place(entities, f).facts[i];
            &&& v.value == Some(values_on(f)[i].1)
            &&& v.valid_from == object_of(entities, f)
            &&& object_of(entities, v) is None
            &&& subject_name(entities, v) == subject_name(entities, f)
        }),
{
    assert(grounded(f) == f);
}

/// Figures on an edge that goes nowhere become values of the subject, each
/// under its own key.
pub proof fn law_figures_land_on_the_subject(entities: Seq<EntityView>, f: FactView, i: int)
    requires
        !contract_time(subject_name(entities, f)),
        object_of(entities, f) is None,
        f.value is None,
        0 <= i < values_on(f).len(),
    ensures
        place(entities, f).facts.len() == values_on(f).len(),
        ({
            let v = place(entities, f).facts[i];
            &&& v.predicate == dotted(f.predicate, values_on(f)[i].0)
            &&& v.value == Some(values_on(f)[i].1)
            &&& v.valid_from == f.valid_from
            &&& subject_name(entities, v) == subject_name(entities, f)
        }),
{
    assert(grounded(f) == f);
}

// ---- Declarations ----

/// A declaration that goes was referred to before, is referred to by no fact
/// that stays, and is reported; every other one stays.
pub proof fn law_only_orphans_go(x: ExtractionView, k: int)
    requires
        0 <= k < x.entities.len(),
    ensures
        ({
            let e = x.entities[k];
            let name = lowercase(trimmed(e.name));
            let orphan = referred_to(x.entities, x.facts, name) && !referred_to(
                x.entities,
                normalized(x).facts,
                name,
            );
            &&& normalized(x).entities.contains(e) <==> !orphan
            &&& orphan ==> notes_on(x).contains(
                NormalizationView::OrphanDeclaration { name: trimmed(e.name) },
            )
        }),
{
    let e = x.entities[k];
    let gone = orphaned(x.entities, x.facts, facts_after(x));
    let stays = still_held(x.entities, x.facts, facts_after(x));
    lemma_filter_contains(x.entities, stays, e);
    lemma_filter_contains(x.entities, gone, e);
    if gone(e) {
        let orphans = x.entities.filter(gone);
        let i = orphans.index_of(e);
        let said = orphans.map_values(orphan_note());
        assert(said[i] == orphan_note()(e));
        let placed = place_all(x.entities, x.facts);
        let first = placed.notes + description_notes(
            x.entities,
            placed.facts,
            placed.facts.len() as int,
        );
        assert(notes_on(x)[first.len() + i] == said[i]);
    }
}

pub(crate) proof fn lemma_filter_contains<A>(s: Seq<A>, p: spec_fn(A) -> bool, a: A)
    ensures
        s.filter(p).contains(a) <==> s.contains(a) && p(a),
    decreases s.len(),
{
    reveal(Seq::filter);
    if s.len() > 0 {
        lemma_filter_contains(s.drop_last(), p, a);
        let kept = s.drop_last().filter(p);
        assert(s =~= s.drop_last().push(s.last()));
        if s.contains(a) && !s.drop_last().contains(a) {
            let i = s.index_of(a);
            assert(i == s.len() - 1) by {
                if i < s.len() - 1 {
                    assert(s.drop_last()[i] == a);
                }
            }
        }
        if s.drop_last().contains(a) {
            let i = s.drop_last().index_of(a);
            assert(s[i] == a);
        }
        if p(s.last()) {
            let grown = kept.push(s.last());
            if kept.contains(a) {
                let i = kept.index_of(a);
                assert(grown[i] == a);
            }
            if grown.contains(a) {
                let i = grown.index_of(a);
                if i < kept.len() {
                    assert(kept[i] == a);
                } else {
                    assert(s[s.len() - 1] == a);
                }
            }
            if a == s.last() {
                assert(grown[kept.len() as int] == a);
            }
        }
    }
}

} // verus!
