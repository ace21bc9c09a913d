//! Laws of the governor: of how a pair is settled, and of a whole run.

use vstd::prelude::*;

use crate::error::AppError;
use crate::governance::PrecedentsView;
use crate::governor::{
    conflicting, first_step, passes, step_after_merge, step_after_survivors, SettlementView,
    StepView,
};
use crate::governor_run::{
    answered, begun, clustered, headed, left_over, read, settled, settlements_of, switched,
    GovernorView, NextView, Phase, BATCH_SIZE, MAX_ROUNDS,
};
use crate::review::{verdict_on, ItemView, VerdictView};

verus! {

/// A pair whose ruling may not be applied is handed to a person with an open
/// proposal, and nothing is changed; one whose ruling may be is never just
/// proposed.
pub proof fn law_what_may_not_be_applied_is_proposed(s: SettlementView, shown: Seq<char>)
    ensures
        first_step(s, shown) is Escalate <==> !passes(s),
        !passes(s) ==> first_step(s, shown)->Escalate_decision.status == "proposed"@,
{
}

/// A pair is closed as kept apart only on a ruling of `different` that may
/// be applied, and the way to a merge is open only on such a ruling of `same`,
/// between entities whose types do not conflict.
pub proof fn law_only_rulings_that_pass_act(s: SettlementView, shown: Seq<char>)
    ensures
        first_step(s, shown) is Close ==> passes(s) && s.ruling.same == Some(false),
        first_step(s, shown) is ReadSurvivors ==> passes(s) && s.ruling.same == Some(true)
            && !conflicting(s.item),
{
}

/// Every step that ends a pair records a decision about that pair in that run:
/// `applied` where the pair is closed, and `proposed` where it goes to a person.
pub proof fn law_every_end_is_recorded(
    s: SettlementView,
    shown: Seq<char>,
    left: u128,
    right: u128,
    merged: Result<u128, AppError>,
    step: StepView,
)
    requires
        step == first_step(s, shown) || step == step_after_survivors(s, shown, left, right)
            || step == step_after_merge(s, shown, merged),
    ensures
        step matches StepView::Close { review_id, decision, .. } ==> review_id == s.item.id
            && decision.status == "applied"@ && decision.target_id == s.item.id
            && decision.run_id == s.run_id,
        step matches StepView::Escalate { review_id, decision, .. } ==> review_id == s.item.id
            && decision.status == "proposed"@ && decision.target_id == s.item.id
            && decision.run_id == s.run_id,
{
}

/// Two sides that are one record by now are not merged again; a merge that was
/// made is recorded with its identifier, so that it can be reverted.
pub proof fn law_merges_are_made_once_and_recorded(
    s: SettlementView,
    shown: Seq<char>,
    left: u128,
    right: u128,
    merge_id: u128,
)
    ensures
        step_after_survivors(s, shown, left, right) is Merge <==> left != right,
        step_after_merge(s, shown, Ok(merge_id)) matches StepView::Close { decision, .. }
            && decision.merge_id == Some(merge_id),
{
}

// ---- A whole run ----

/// Where the switch is off, or there is no model, a run does nothing; and a run
/// stops as soon as it reads that the switch is off.
pub proof fn law_the_switch_stops_the_run(
    kb_id: u128,
    run_id: u128,
    on: bool,
    has_model: bool,
    s: GovernorView,
)
    ensures
        begun(kb_id, run_id, on, has_model).1 is Finish <==> !on || !has_model,
        switched(s, false).1 is Finish,
{
}

/// Before every cluster the switch is read: a run lists pairs only after it
/// found the switch on, and after settling a cluster it reads the switch again
/// or looks at what is left.
pub proof fn law_the_switch_is_read_before_each_cluster(s: GovernorView)
    ensures
        settled(s).1 is ReadSwitch || settled(s).1 is ListBacklog,
        switched(s, true).1 is ListHead,
{
}

/// Every pair of the cluster is settled, once and in order, with its own
/// precedents; one that the model passed over is unsure.
pub proof fn law_every_pair_of_the_cluster_is_settled(
    s: GovernorView,
    verdicts: Seq<VerdictView>,
    i: int,
)
    requires
        0 <= i < s.items.len(),
    ensures
        settlements_of(s, verdicts).len() == s.items.len(),
        settlements_of(s, verdicts)[i].item == s.items[i],
        settlements_of(s, verdicts)[i].precedents == s.precedents[i],
        verdict_on(verdicts, i) is None ==> settlements_of(s, verdicts)[i].ruling.same is None
            && !passes(settlements_of(s, verdicts)[i]),
{
}

/// A cluster that was listed within its limit fits into one question.
pub proof fn law_a_cluster_fits_into_one_question(
    s: GovernorView,
    items: Seq<ItemView>,
    siblings: Seq<ItemView>,
)
    requires
        items.len() > 0,
        headed(s, items).1 matches NextView::ListCluster { limit, .. } && siblings.len() <= limit,
    ensures
        clustered(headed(s, items).0, siblings).0.items.len() <= BATCH_SIZE,
        clustered(headed(s, items).0, siblings).0.items[0] == items[0],
{
}

/// How much of a run is left: its rounds, the stages of the round, and the
/// precedents to read.
pub open spec fn left(s: GovernorView) -> (nat, nat, int) {
    let stage: nat = match s.phase {
        Phase::Switch => 6,
        Phase::Head => 5,
        Phase::Cluster => 4,
        Phase::Reading => 3,
        Phase::Asking => 2,
        Phase::Settling => 1,
        Phase::Backlog => 0,
        Phase::Finished => 0,
    };
    (
        s.rounds,
        stage,
        if s.phase == Phase::Reading {
            s.items.len() - s.precedents.len()
        } else {
            0
        },
    )
}

pub open spec fn less(a: (nat, nat, int), b: (nat, nat, int)) -> bool {
    a.0 < b.0 || a.0 == b.0 && (a.1 < b.1 || a.1 == b.1 && 0 <= a.2 < b.2)
}

pub open spec fn ends(next: NextView) -> bool {
    next is Finish || next is Enqueue
}

/// A run begins with fewer than [`MAX_ROUNDS`] rounds to follow, and comes to an
/// end: with every event it finishes or has less left.
pub proof fn law_a_run_comes_to_an_end(
    kb_id: u128,
    run_id: u128,
    s: GovernorView,
    on: bool,
    items: Seq<ItemView>,
    p: PrecedentsView,
    verdicts: Seq<VerdictView>,
)
    requires
        s.wf(),
    ensures
        begun(kb_id, run_id, on, true).0.rounds < MAX_ROUNDS,
        s.phase == Phase::Switch ==> ends(switched(s, on).1) || less(
            left(switched(s, on).0),
            left(s),
        ),
        s.phase == Phase::Head ==> ends(headed(s, items).1) || less(
            left(headed(s, items).0),
            left(s),
        ),
        s.phase == Phase::Cluster ==> less(left(clustered(s, items).0), left(s)),
        s.phase == Phase::Reading ==> less(left(read(s, p).0), left(s)),
        s.phase == Phase::Asking ==> less(left(answered(s, verdicts).0), left(s)),
        s.phase == Phase::Settling ==> less(left(settled(s).0), left(s)),
        s.phase == Phase::Backlog ==> ends(left_over(s, items).1),
{
}

} // verus!
