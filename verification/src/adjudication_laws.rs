//! Laws of adjudication: of the cache key, of what a ruling leads to, and of a
//! whole run.

use vstd::prelude::*;

use crate::adjudication::{
    first_step, key_of, key_text, sampled, side_text, step_after_impact, step_after_merge, sure,
    StepView, MAX_ROUNDS, NO_MODEL_BATCH,
};
use crate::adjudication_run::{
    answered, begun, carried_out, handed_over, listed, looked_up, outcome, outcomes, read,
    ActionView, AskedView, NextView, Phase, RunView,
};
use crate::error::AppError;
use crate::governance::PrecedentsView;
use crate::review::{label_of, ruling_on, ItemView, RulingView, SideView, VerdictView};
use crate::single::Single;
use crate::strings::{joined, lemma_no_later_total, lowercase};

verus! {

/// A pair has one key, whichever entity stands on the left.
pub proof fn law_key_ignores_the_sides(item: ItemView, precedents: Seq<Seq<char>>)
    ensures
        key_of(ItemView { left: item.right, right: item.left, ..item }, precedents) == key_of(
            item,
            precedents,
        ),
{
    lemma_no_later_total(side_text(item.left), side_text(item.right));
}

/// Two sides of which the same is known: the same name, whatever the case of its
/// letters, the same type, or none on both, and the same facts.
pub open spec fn alike(a: SideView, b: SideView) -> bool {
    &&& lowercase(a.name) == lowercase(b.name)
    &&& label_of(a) == label_of(b)
    &&& a.top_facts == b.top_facts
}

/// The key depends on what is known of the two entities and not on which records
/// they are, on which side they stand or how their names are capitalised: a
/// document that is uploaded again finds the old verdict.
pub proof fn law_key_ignores_identifiers(a: ItemView, b: ItemView, precedents: Seq<Seq<char>>)
    requires
        alike(a.left, b.left) && alike(a.right, b.right) || alike(a.left, b.right) && alike(
            a.right,
            b.left,
        ),
    ensures
        key_of(a, precedents) == key_of(b, precedents),
{
    law_key_ignores_the_sides(a, precedents);
}

/// Once people have decided something new, the text under the key is another
/// one: a verdict that was cached without that precedent is not taken for the
/// answer.
pub proof fn law_key_text_changes_with_the_precedents(
    item: ItemView,
    before: Seq<Seq<char>>,
    after: Seq<Seq<char>>,
)
    requires
        joined(before, "\n"@) != joined(after, "\n"@),
    ensures
        key_text(item, before) != key_text(item, after),
{
    let x = key_text(item, before);
    let y = key_text(item, after);
    let a = joined(before, "\n"@);
    let b = joined(after, "\n"@);
    if x == y {
        let head = (x.len() - a.len()) as int;
        assert(x.skip(head) =~= a);
        assert(head == y.len() - b.len());
        assert(y.skip(head) =~= b);
    }
}

/// A pair of the sample goes to a person, however sure the model is.
pub proof fn law_the_sample_goes_to_people(
    item: ItemView,
    ruling: RulingView,
    via: Seq<char>,
    shown: Seq<char>,
)
    requires
        sampled(item),
    ensures
        first_step(item, ruling, via, shown) matches StepView::Escalate { review_id, .. }
            && review_id == item.id,
{
}

/// A ruling that is not sure goes to a person.
pub proof fn law_an_unsure_ruling_goes_to_people(
    item: ItemView,
    ruling: RulingView,
    via: Seq<char>,
    shown: Seq<char>,
)
    requires
        !sure(ruling),
    ensures
        first_step(item, ruling, via, shown) matches StepView::Escalate { review_id, .. }
            && review_id == item.id,
{
}

/// Nothing is closed without a sure ruling outside the sample, and a merge is
/// never the first step: what it would do is looked at before.
pub proof fn law_only_a_sure_ruling_acts(
    item: ItemView,
    ruling: RulingView,
    via: Seq<char>,
    shown: Seq<char>,
)
    ensures
        first_step(item, ruling, via, shown) !is Merge,
        first_step(item, ruling, via, shown) is CheckImpact <==> sure(ruling) && !sampled(item)
            && ruling.same == Some(true),
        first_step(item, ruling, via, shown) is Close <==> sure(ruling) && !sampled(item)
            && ruling.same == Some(false),
{
    if ruling.same is Some && ruling.same != Some(true) {
        assert(!ruling.same->Some_0);
    }
}

/// A merge that is held for a person is not made.
pub proof fn law_a_held_merge_is_not_made(
    item: ItemView,
    hold: Option<Seq<char>>,
    via: Seq<char>,
    shown: Seq<char>,
)
    ensures
        step_after_impact(item, hold, via, shown) is Merge <==> hold is None,
        hold is Some ==> step_after_impact(item, hold, via, shown) is Escalate,
{
}

/// A pair is closed as merged only after the merge was made, and a pair whose
/// entities changed on the way is left to a person without failing the run.
pub proof fn law_a_failed_merge_closes_nothing(
    item: ItemView,
    ruling: RulingView,
    via: Seq<char>,
    shown: Seq<char>,
    merged: Result<u128, AppError>,
)
    ensures
        step_after_merge(item, ruling, via, shown, merged) is Close <==> merged is Ok,
        step_after_merge(item, ruling, via, shown, merged) is Fail <==> (merged matches Err(e)
            && e !is Conflict && e !is NotFound),
{
}

// ---- A whole run ----

/// Without a model, pairs are handed to people and nothing is decided.
pub proof fn law_without_a_model_nothing_is_decided(items: Seq<ItemView>)
    ensures
        handed_over(items).len() == items.len(),
        forall|i: int|
            0 <= i < items.len() ==> (#[trigger] handed_over(items)[i] matches
                ActionView::Escalate { review_id, reason } && review_id == items[i].id && reason
                == "escalate_no_model"@),
{
}

/// Without a model a full list is handed over and the queue is listed again. A
/// list that was not full is handed over, the clients are told, and the run ends;
/// nothing else ends it, and nothing else tells the clients.
pub proof fn law_without_a_model_a_short_list_ends_the_run(s: RunView, items: Seq<ItemView>)
    requires
        s.wf(),
        s.model is None,
    ensures
        begun(None).1 is List,
        s.phase == Phase::Listing && items.len() >= NO_MODEL_BATCH ==> listed(s, items).1 == (
        NextView::Act { actions: handed_over(items) }) && carried_out(
            listed(s, items).0,
        ).1 is List && carried_out(listed(s, items).0).0 == s,
        s.phase == Phase::Listing && items.len() < NO_MODEL_BATCH ==> listed(s, items).1 == (
        NextView::Act { actions: handed_over(items).push(ActionView::Emit) }) && carried_out(
            listed(s, items).0,
        ).1 is Finish,
        listed(s, items).1 !is Finish,
        listed(s, items).0.phase == Phase::Closing <==> items.len() < NO_MODEL_BATCH,
        s.phase == Phase::Acting ==> carried_out(s).1 is List,
        carried_out(s).1 is Finish <==> s.phase == Phase::Closing,
        s.phase != Phase::Reading && s.phase != Phase::LookingUp && s.phase != Phase::Asking,
{
}

/// What a run without a model comes to.
pub struct HandedOver {
    /// How often the queue was listed.
    pub lists: nat,
    /// Everything that was carried out, in order.
    pub actions: Seq<ActionView>,
    pub finished: bool,
}

/// A run without a model over a queue: each list gives the pairs at its head, up
/// to the limit, and a pair that is handed to a person leaves it.
pub open spec fn handed_over_from(s: RunView, queue: Seq<ItemView>) -> HandedOver
    decreases queue.len(),
{
    let n: nat = if queue.len() < NO_MODEL_BATCH {
        queue.len()
    } else {
        NO_MODEL_BATCH as nat
    };
    let (acting, step) = listed(s, queue.take(n as int));
    let (after, next) = carried_out(acting);
    if next is List && n > 0 {
        let rest = handed_over_from(after, queue.skip(n as int));
        HandedOver {
            lists: 1 + rest.lists,
            actions: step->actions + rest.actions,
            finished: rest.finished,
        }
    } else {
        HandedOver { lists: 1, actions: step->actions, finished: next is Finish }
    }
}

/// Without a model a run over a queue of any length hands every pair to a person,
/// once and in order, tells the clients once, at the end, and finishes after one
/// list for each full batch and one more.
pub proof fn law_without_a_model_the_whole_queue_goes_to_people(
    s: RunView,
    queue: Seq<ItemView>,
)
    requires
        s.wf(),
        s.model is None,
        s.phase == Phase::Listing,
    ensures
        handed_over_from(s, queue).actions == handed_over(queue).push(ActionView::Emit),
        handed_over_from(s, queue).lists == queue.len() / (NO_MODEL_BATCH as nat) + 1,
        handed_over_from(s, queue).finished,
    decreases queue.len(),
{
    if queue.len() < NO_MODEL_BATCH {
        assert(queue.take(queue.len() as int) =~= queue);
    } else {
        let n = NO_MODEL_BATCH as int;
        let head = queue.take(n);
        let rest = queue.skip(n);
        law_without_a_model_the_whole_queue_goes_to_people(s, rest);
        assert(carried_out(listed(s, head).0).0 == s);
        assert(rest.len() == queue.len() - 500);
        assert(queue.len() / 500 == (queue.len() - 500) / 500 + 1);
        assert(handed_over(head) + handed_over(rest).push(ActionView::Emit) =~= handed_over(
            queue,
        ).push(ActionView::Emit));
    }
}

/// Every pair that was asked about has its outcome: the ruling on it is stored
/// and carried out, or the pair goes to a person.
pub proof fn law_every_question_has_an_outcome(
    asked: Seq<AskedView>,
    verdicts: Seq<VerdictView>,
    model: Seq<char>,
    n: int,
    k: int,
)
    requires
        0 <= k < n <= asked.len(),
    ensures
        forall|i: int|
            0 <= i < outcome(asked[k], ruling_on(verdicts, k), model).len() ==> outcomes(
                asked,
                verdicts,
                model,
                n,
            ).contains(#[trigger] outcome(asked[k], ruling_on(verdicts, k), model)[i]),
    decreases n,
{
    let mine = outcome(asked[k], ruling_on(verdicts, k), model);
    let all = outcomes(asked, verdicts, model, n);
    let earlier = outcomes(asked, verdicts, model, n - 1);
    if k < n - 1 {
        law_every_question_has_an_outcome(asked, verdicts, model, n - 1, k);
        assert forall|i: int| 0 <= i < mine.len() implies all.contains(#[trigger] mine[i]) by {
            let j = earlier.index_of(mine[i]);
            assert(earlier.contains(mine[i]));
            assert(all[j] == mine[i]);
        }
    } else {
        assert forall|i: int| 0 <= i < mine.len() implies all.contains(#[trigger] mine[i]) by {
            assert(all[earlier.len() + i] == mine[i]);
        }
    }
}

/// How many pairs of the round the run holds.
pub open spec fn held(s: RunView) -> nat {
    s.waiting.len() + s.to_ask.len() + if s.current is Some {
        1nat
    } else {
        0nat
    }
}

/// A question holds no more pairs than the list that began the round: a run that
/// holds at most `limit` pairs asks about at most `limit`, and nothing but a
/// longer list makes it hold more.
pub proof fn law_a_question_is_no_longer_than_the_list(
    s: RunView,
    limit: nat,
    items: Seq<ItemView>,
    p: PrecedentsView,
    hit: Option<(Option<bool>, Single)>,
    verdicts: Seq<VerdictView>,
)
    requires
        s.wf(),
        held(s) <= limit,
    ensures
        held(begun(s.model).0) == 0,
        s.phase == Phase::Listing && items.len() <= limit ==> held(listed(s, items).0) <= limit,
        s.phase == Phase::Reading ==> held(read(s, p).0) <= limit,
        s.phase == Phase::LookingUp ==> held(looked_up(s, hit).0) <= limit,
        s.phase == Phase::Asking ==> held(answered(s, verdicts).0) <= limit,
        s.phase == Phase::Acting || s.phase == Phase::Closing ==> held(carried_out(s).0)
            <= limit,
        s.phase == Phase::LookingUp ==> (looked_up(s, hit).1 matches NextView::Ask { pairs }
            ==> pairs.len() <= limit),
        s.phase == Phase::Acting ==> (carried_out(s).1 matches NextView::Ask { pairs }
            ==> pairs.len() <= limit),
        listed(s, items).1 !is Ask && read(s, p).1 !is Ask && answered(s, verdicts).1 !is Ask,
{
}

/// A run with a model begins one round, and each round that follows uses one up:
/// there are never more than [`MAX_ROUNDS`].
pub proof fn law_rounds_are_bounded(
    model: Option<Seq<char>>,
    s: RunView,
    items: Seq<ItemView>,
    p: PrecedentsView,
    hit: Option<(Option<bool>, Single)>,
    verdicts: Seq<VerdictView>,
)
    requires
        s.wf(),
        s.model is Some,
    ensures
        begun(model).0.rounds < MAX_ROUNDS,
        listed(s, items).1 !is List && listed(s, items).0.rounds == s.rounds,
        read(s, p).1 !is List && read(s, p).0.rounds == s.rounds,
        looked_up(s, hit).1 !is List && looked_up(s, hit).0.rounds == s.rounds,
        answered(s, verdicts).1 !is List && answered(s, verdicts).0.rounds == s.rounds,
        carried_out(s).1 is List ==> carried_out(s).0.rounds + 1 == s.rounds,
        carried_out(s).1 !is List ==> carried_out(s).0.rounds == s.rounds,
{
}

/// How much of a run is left: its rounds, whether the round was listed, and
/// what the round has to do.
pub open spec fn left(s: RunView) -> (nat, nat, nat) {
    let weight: nat = match s.phase {
        Phase::LookingUp => 3,
        Phase::Acting => 1,
        _ => 0,
    };
    (
        s.rounds,
        if s.phase == Phase::Listing {
            1
        } else {
            0
        },
        4 * s.waiting.len() + 2 * s.to_ask.len() + weight,
    )
}

pub open spec fn less(a: (nat, nat, nat), b: (nat, nat, nat)) -> bool {
    a.0 < b.0 || a.0 == b.0 && (a.1 < b.1 || a.1 == b.1 && a.2 < b.2)
}

/// A run with a model comes to an end: with every event it finishes or has less
/// left.
pub proof fn law_a_run_comes_to_an_end(
    s: RunView,
    items: Seq<ItemView>,
    p: PrecedentsView,
    hit: Option<(Option<bool>, Single)>,
    verdicts: Seq<VerdictView>,
)
    requires
        s.wf(),
        s.model is Some,
    ensures
        s.phase == Phase::Listing ==> listed(s, items).1 is Finish || less(
            left(listed(s, items).0),
            left(s),
        ),
        s.phase == Phase::Reading ==> less(left(read(s, p).0), left(s)),
        s.phase == Phase::LookingUp ==> less(left(looked_up(s, hit).0), left(s)),
        s.phase == Phase::Asking ==> less(left(answered(s, verdicts).0), left(s)),
        s.phase == Phase::Acting ==> carried_out(s).1 is Finish || less(
            left(carried_out(s).0),
            left(s),
        ),
{
}

} // verus!
