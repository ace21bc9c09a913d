//! Laws of a run of the adjudicator: what it asks, in which order, and that every
//! pair gets what was said of it.

use vstd::prelude::*;

use crate::adjudication::key_of;
use crate::adjudication_run::{
    answered, begun, carried_out, listed, looked_up, outcome, outcomes, read, ActionView,
    AskedView, NextView, Phase, RunView,
};
use crate::governance::{lines, PrecedentsView};
use crate::review::{asked_pair, ruling_on, ItemView, RulingView, VerdictView};
use crate::review_laws::{
    counts_as, is_last_on, law_a_pair_that_was_passed_over_is_not_ruled,
    law_the_last_verdict_rules, lemma_some_verdict_is_last, says_what,
};
use crate::single::Single;

verus! {

// ---- What the model says is stored and carried out ----

/// The model gave a verdict on the pair with this number.
pub open spec fn spoken_of(verdicts: Seq<VerdictView>, k: int) -> bool {
    exists|n: int| 0 <= n < verdicts.len() && (#[trigger] verdicts[n]).i == k
}

/// How many actions come before those on the pair with the number `k`: two for each
/// earlier pair with a verdict, and one for each without.
pub open spec fn actions_before(verdicts: Seq<VerdictView>, k: int) -> nat
    decreases k,
{
    if k <= 0 {
        0
    } else if spoken_of(verdicts, k - 1) {
        actions_before(verdicts, k - 1) + 2
    } else {
        actions_before(verdicts, k - 1) + 1
    }
}

proof fn lemma_ruled(verdicts: Seq<VerdictView>, k: int)
    ensures
        spoken_of(verdicts, k) == (ruling_on(verdicts, k) is Some),
{
    if spoken_of(verdicts, k) {
        let n = choose|n: int| 0 <= n < verdicts.len() && (#[trigger] verdicts[n]).i == k;
        let m = lemma_some_verdict_is_last(verdicts, k, n);
        law_the_last_verdict_rules(verdicts, k, m);
    } else {
        law_a_pair_that_was_passed_over_is_not_ruled(verdicts, k);
    }
}

proof fn lemma_outcomes(
    asked: Seq<AskedView>,
    verdicts: Seq<VerdictView>,
    model: Seq<char>,
    n: int,
    k: int,
)
    requires
        0 <= k < n <= asked.len(),
    ensures
        outcomes(asked, verdicts, model, n).len() == actions_before(verdicts, n),
        actions_before(verdicts, k) + outcome(asked[k], ruling_on(verdicts, k), model).len()
            <= actions_before(verdicts, n),
        forall|i: int|
            0 <= i < outcome(asked[k], ruling_on(verdicts, k), model).len() ==> outcomes(
                asked,
                verdicts,
                model,
                n,
            )[actions_before(verdicts, k) + i] == #[trigger] outcome(
                asked[k],
                ruling_on(verdicts, k),
                model,
            )[i],
    decreases n,
{
    lemma_ruled(verdicts, n - 1);
    if n == 1 {
        assert(outcomes(asked, verdicts, model, 0).len() == 0);
    } else if k < n - 1 {
        lemma_outcomes(asked, verdicts, model, n - 1, k);
    } else {
        lemma_outcomes(asked, verdicts, model, n - 1, 0);
    }
}

/// For each pair of the question, in order, the verdict on it, the last one given,
/// is stored under the key of the pair and carried out on the pair, both with the
/// word and the confidence of that verdict; a pair without a verdict goes to a
/// person. Then the clients are told, and the question is done with.
pub proof fn law_every_pair_gets_what_the_model_said(
    s: RunView,
    verdicts: Seq<VerdictView>,
    k: int,
    m: int,
)
    requires
        s.model is Some,
        0 <= k < s.to_ask.len(),
    ensures
        answered(s, verdicts).1 matches NextView::Act { actions } && {
            let at = actions_before(verdicts, k) as int;
            &&& actions.len() == actions_before(verdicts, s.to_ask.len() as int) + 1
            &&& actions[actions.len() - 1] is Emit
            &&& at < actions.len() - 1
            &&& is_last_on(verdicts, k, m) ==> at + 1 < actions.len() - 1 && (actions[at]
                matches ActionView::Store { key, same, confidence, model } && {
                &&& key == s.to_ask[k].key
                &&& same == Some(true) <==> verdicts[m].verdict == "same"@
                &&& same == Some(false) <==> verdicts[m].verdict == "different"@
                &&& counts_as(verdicts[m].confidence, confidence)
                &&& Some(model) == s.model
                &&& actions[at + 1] matches ActionView::Apply { item, ruling, via } && {
                    &&& item == s.to_ask[k].item
                    &&& says_what(verdicts[m], ruling)
                    &&& ruling.same == same
                    &&& ruling.confidence == confidence
                    &&& via == "adjudicated"@
                }
            })
            &&& !spoken_of(verdicts, k) ==> actions[at] == (ActionView::Escalate {
                review_id: s.to_ask[k].item.id,
                reason: "escalate_no_verdict"@,
            })
        },
        answered(s, verdicts).0 == (RunView {
            phase: Phase::Acting,
            to_ask: Seq::empty(),
            ..s
        }),
{
    let model = s.model->Some_0;
    let n = s.to_ask.len() as int;
    lemma_outcomes(s.to_ask, verdicts, model, n, k);
    lemma_ruled(verdicts, k);
    let mine = outcome(s.to_ask[k], ruling_on(verdicts, k), model);
    let all = outcomes(s.to_ask, verdicts, model, n);
    if is_last_on(verdicts, k, m) {
        law_the_last_verdict_rules(verdicts, k, m);
        assert(all[actions_before(verdicts, k) as int + 0] == mine[0]);
        assert(all[actions_before(verdicts, k) as int + 1] == mine[1]);
    } else if !spoken_of(verdicts, k) {
        assert(all[actions_before(verdicts, k) as int + 0] == mine[0]);
    }
}

/// The verdict `same` never becomes an action that keeps the pair apart, nor
/// `different` one that merges it: what is carried out on a pair is what the model
/// said last of it.
pub proof fn law_no_verdict_is_turned_round(s: RunView, verdicts: Seq<VerdictView>, a: int) -> (k: int)
    requires
        s.model is Some,
        answered(s, verdicts).1 matches NextView::Act { actions } && 0 <= a < actions.len()
            && actions[a] is Apply,
    ensures
        0 <= k < s.to_ask.len(),
        answered(s, verdicts).1 matches NextView::Act { actions } && actions[a] matches
            ActionView::Apply { item, ruling, via } && item == s.to_ask[k].item && exists|m: int|
            #[trigger] is_last_on(verdicts, k, m) && says_what(verdicts[m], ruling),
{
    let n = s.to_ask.len() as int;
    let model = s.model->Some_0;
    let all = outcomes(s.to_ask, verdicts, model, n);
    assert(all.push(ActionView::Emit)[all.len() as int] is Emit);
    let k = lemma_whose(s.to_ask, verdicts, model, n, a);
    lemma_ruled(verdicts, k);
    let i = choose|i: int| 0 <= i < verdicts.len() && (#[trigger] verdicts[i]).i == k;
    let m = lemma_some_verdict_is_last(verdicts, k, i);
    law_the_last_verdict_rules(verdicts, k, m);
    assert(is_last_on(verdicts, k, m));
    k
}

proof fn lemma_whose(
    asked: Seq<AskedView>,
    verdicts: Seq<VerdictView>,
    model: Seq<char>,
    n: int,
    a: int,
) -> (k: int)
    requires
        0 <= n <= asked.len(),
        0 <= a < outcomes(asked, verdicts, model, n).len(),
        outcomes(asked, verdicts, model, n)[a] is Apply,
    ensures
        0 <= k < n,
        ruling_on(verdicts, k) matches Some(r) && outcomes(asked, verdicts, model, n)[a] == (
        ActionView::Apply { item: asked[k].item, ruling: r, via: "adjudicated"@ }),
    decreases n,
{
    let before = outcomes(asked, verdicts, model, n - 1);
    if a < before.len() {
        assert(outcomes(asked, verdicts, model, n)[a] == before[a]);
        lemma_whose(asked, verdicts, model, n - 1, a)
    } else {
        let mine = outcome(asked[n - 1], ruling_on(verdicts, n - 1), model);
        assert(outcomes(asked, verdicts, model, n)[a] == mine[a - before.len()]);
        n - 1
    }
}

// ---- The cache ----

/// The cache is asked for the pair at the head of the round, with the precedents
/// that were read for it; the pair is taken from the round and nothing else changes.
pub proof fn law_the_head_of_the_round_is_looked_up(s: RunView, p: PrecedentsView)
    requires
        s.waiting.len() > 0,
    ensures
        read(s, p).1 == (NextView::LookUp { key: key_of(s.waiting[0], lines(p)) }),
        read(s, p).0.current matches Some(a) && a.item == s.waiting[0] && a.precedents == lines(p)
            && a.key == key_of(s.waiting[0], lines(p)),
        read(s, p).0.waiting == s.waiting.drop_first(),
        read(s, p).0.to_ask == s.to_ask,
        read(s, p).0.phase == Phase::LookingUp,
        read(s, p).0.model == s.model && read(s, p).0.rounds == s.rounds,
{
}

/// What the cache knows of the pair is carried out on it as it was stored; nothing
/// is stored again, nobody is asked, and the rest of the round waits.
pub proof fn law_a_cached_verdict_is_carried_out_as_stored(
    s: RunView,
    same: Option<bool>,
    confidence: Single,
)
    requires
        s.current is Some,
    ensures
        looked_up(s, Some((same, confidence))).1 matches NextView::Act { actions } && actions.len()
            == 1 && actions[0] == (ActionView::Apply {
            item: s.current->Some_0.item,
            ruling: RulingView { same, confidence, why: None },
            via: "cached"@,
        }),
        looked_up(s, Some((same, confidence))).0 == (RunView {
            phase: Phase::Acting,
            current: None,
            ..s
        }),
{
}

/// A pair that the cache does not know joins the question, with the key that was
/// looked up: the verdict on it will be stored where the next run looks.
pub proof fn law_an_unknown_pair_joins_the_question(s: RunView, p: PrecedentsView)
    requires
        s.waiting.len() > 0,
    ensures
        ({
            let next = looked_up(read(s, p).0, None).0;
            let n = s.to_ask.len() as int;
            &&& next.to_ask.len() == n + 1
            &&& forall|i: int| 0 <= i < n ==> next.to_ask[i] == s.to_ask[i]
            &&& next.to_ask[n].item == s.waiting[0]
            &&& next.to_ask[n].precedents == lines(p)
            &&& read(s, p).1 == (NextView::LookUp { key: next.to_ask[n].key })
            &&& next.waiting == s.waiting.drop_first()
            &&& next.current is None
            &&& next.model == s.model && next.rounds == s.rounds
        }),
{
}

// ---- The order of a run ----

/// The next thing in a round: the pair at its head, then the question about all
/// pairs that joined it, then another list while rounds are left, then the end.
pub open spec fn goes_on(s: RunView, next: RunView, step: NextView) -> bool {
    &&& s.waiting.len() > 0 ==> step == (NextView::ReadPrecedents { item: s.waiting[0] })
        && next == (RunView { phase: Phase::Reading, ..s })
    &&& s.waiting.len() == 0 && s.to_ask.len() > 0 ==> (step matches NextView::Ask { pairs }
        && pairs.len() == s.to_ask.len() && forall|i: int|
        0 <= i < pairs.len() ==> #[trigger] pairs[i] == asked_pair(
            s.to_ask[i].item,
            s.to_ask[i].precedents,
        )) && next == (RunView { phase: Phase::Asking, ..s })
    &&& s.waiting.len() == 0 && s.to_ask.len() == 0 && s.rounds > 0 ==> step == (
    NextView::List { limit: 12 }) && next == (RunView {
        phase: Phase::Listing,
        rounds: (s.rounds - 1) as nat,
        ..s
    })
    &&& s.waiting.len() == 0 && s.to_ask.len() == 0 && s.rounds == 0 ==> step is Finish && next
        == (RunView { phase: Phase::Finished, ..s })
}

/// A run with a model begins with a list of twelve pairs and has nineteen more
/// rounds; one without a model lists five hundred and has none.
pub proof fn law_a_run_begins_with_a_list(model: Option<Seq<char>>)
    ensures
        begun(model).0.model == model,
        begun(model).0.phase == Phase::Listing,
        model is Some ==> begun(model).1 == (NextView::List { limit: 12 }) && begun(
            model,
        ).0.rounds == 19,
        model is None ==> begun(model).1 == (NextView::List { limit: 500 }) && begun(
            model,
        ).0.rounds == 0,
{
}

/// With a model, all pairs of a list are taken up, in order, before anything else
/// is asked; an empty list ends the run. After a cache miss and after each action
/// the run goes on.
pub proof fn law_a_round_goes_through_its_list(
    s: RunView,
    items: Seq<ItemView>,
    asked: AskedView,
)
    requires
        s.wf(),
        s.model is Some,
    ensures
        s.phase == Phase::Listing && items.len() == 0 ==> listed(s, items).1 is Finish,
        s.phase == Phase::Listing && items.len() > 0 ==> listed(s, items).1 == (
        NextView::ReadPrecedents { item: items[0] }) && listed(s, items).0 == (RunView {
            phase: Phase::Reading,
            waiting: items,
            ..s
        }),
        s.phase == Phase::Acting ==> goes_on(s, carried_out(s).0, carried_out(s).1),
        ({
            let t = RunView { phase: Phase::LookingUp, current: Some(asked), ..s };
            goes_on(
                RunView { current: None, to_ask: s.to_ask.push(asked), ..t },
                looked_up(t, None).0,
                looked_up(t, None).1,
            )
        }),
{
}

} // verus!
