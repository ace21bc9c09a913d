//! Laws of how the governor settles a pair: with the ruling that the model gave,
//! under the record that belongs to it, in the order of the run.

use vstd::prelude::*;

use crate::adjudication_run_laws::spoken_of;
use crate::error::AppError;
use crate::governance::{
    gated, lines, recorded, DecisionView, Gate, PrecedentsView,
};
use crate::governor::{
    first_step, governor_audit, step_after_merge, step_after_survivors, SettlementView, StepView,
};
use crate::governor_run::{
    answered, begun, clustered, headed, left_over, read, settled, switched, GovernorView, NextView,
    Phase,
};
use crate::ids::id_text;
use crate::jobs::{on_kb, JobView};
use crate::json::{has_member, has_members, JsonView};
use crate::precedent_laws::{law_without_support_the_bar_is_the_higher, sure_enough, went};
use crate::review::{asked_pair, ItemView, VerdictView};
use crate::review_laws::{
    counts_as, is_last_on, law_a_pair_that_was_passed_over_is_not_ruled,
    law_the_last_verdict_rules, says_what,
};
use crate::single::{lemma_size_order, Single};

verus! {

// ---- The ruling of a settlement ----

/// Each pair of the cluster is settled, in order, with its own precedents and with
/// the verdict that the model gave last on it: its word, its confidence within the
/// range from zero to one, its reason. A pair that the model passed over is unsure,
/// with no confidence and no reason.
pub proof fn law_a_pair_is_settled_as_the_model_said(
    s: GovernorView,
    verdicts: Seq<VerdictView>,
    i: int,
    m: int,
)
    requires
        0 <= i < s.items.len(),
    ensures
        answered(s, verdicts).1 matches NextView::Settle { settlements } && {
            let t = settlements[i];
            &&& settlements.len() == s.items.len()
            &&& t.run_id == s.run_id
            &&& t.item == s.items[i]
            &&& t.precedents == s.precedents[i]
            &&& is_last_on(verdicts, i, m) ==> says_what(verdicts[m], t.ruling)
            &&& !spoken_of(verdicts, i) ==> t.ruling.same is None && t.ruling.confidence == (
            Single { bits: 0 }) && t.ruling.why is None
        },
{
    if is_last_on(verdicts, i, m) {
        law_the_last_verdict_rules(verdicts, i, m);
    }
    if !spoken_of(verdicts, i) {
        law_a_pair_that_was_passed_over_is_not_ruled(verdicts, i);
    }
}

/// Nothing in these precedents supports the ruling: no decision on the pair went
/// this way, on its names there is none or one that went the other way, and the
/// types have no such habit.
pub open spec fn unsupported(p: PrecedentsView, same: bool) -> bool {
    &&& !went(p.same_pair, same)
    &&& p.same_name.len() == 0 || went(p.same_name, !same)
    &&& p.type_pair matches Some(t) ==> t.merged + t.kept < 5 || (if same {
        t.kept > t.merged || t.reverted != 0
    } else {
        t.merged >= t.kept
    })
}

/// Without support from history, a pair whose stated confidence lies below 0.85, or
/// was not stated, is never applied: it is left to a person.
pub proof fn law_a_doubtful_verdict_is_left_to_people(
    s: GovernorView,
    verdicts: Seq<VerdictView>,
    i: int,
    m: int,
    shown: Seq<char>,
)
    requires
        0 <= i < s.items.len(),
        is_last_on(verdicts, i, m),
        verdicts[m].confidence matches Some(c) ==> !sure_enough(c),
        unsupported(s.precedents[i], true),
        unsupported(s.precedents[i], false),
    ensures
        answered(s, verdicts).1 matches NextView::Settle { settlements } && first_step(
            settlements[i],
            shown,
        ) is Escalate,
{
    law_a_pair_is_settled_as_the_model_said(s, verdicts, i, m);
    let t = answered(s, verdicts).1->settlements[i];
    let c = t.ruling.confidence;
    lemma_size_order(0x3f59_999a, 0x3f00_0000);
    lemma_size_order(0x3f59_999a, 0);
    lemma_size_order(0x3f59_999a, 0x3f80_0000);
    assert(counts_as(verdicts[m].confidence, c));
    assert(!sure_enough(c));
    if let Some(same) = t.ruling.same {
        law_without_support_the_bar_is_the_higher(same, c, types_differ(t.item), t.precedents);
    }
}

// ---- The steps ----

/// Both sides have a type, and these are two.
pub open spec fn types_differ(item: ItemView) -> bool {
    item.left.type_label matches Some(a) && item.right.type_label matches Some(b) && a != b
}

/// The ruling may be carried out.
pub open spec fn may_act(s: SettlementView) -> bool {
    gated(s.ruling.same, s.ruling.confidence, types_differ(s.item), s.precedents) == Gate::Apply
}

/// The decision is about this pair in this run, with its confidence and precedents.
pub open spec fn is_about(
    d: DecisionView,
    s: SettlementView,
    action: Seq<char>,
    reason: Option<Seq<char>>,
    status: Seq<char>,
    merge_id: Option<u128>,
) -> bool {
    &&& d.run_id == s.run_id
    &&& d.target_id == s.item.id
    &&& d.action == action
    &&& d.confidence == s.ruling.confidence
    &&& d.reason == reason
    &&& d.precedents == recorded(s.precedents)
    &&& d.status == status
    &&& d.merge_id == merge_id
    &&& d.question is None
    &&& d.trace matches JsonView::Array(t) && t.len() == 0
    &&& d.calls == 0
}

/// What a ruling is called in a decision.
pub open spec fn called(same: Option<bool>) -> Seq<char> {
    if same == Some(true) {
        "merge"@
    } else if same == Some(false) {
        "keep"@
    } else {
        "unsure"@
    }
}

/// A ruling that may not be carried out is proposed under its own name. One that
/// may be looks for the survivors of the two entities where they are the same, and
/// closes the pair as kept apart where they are not; the decision that is recorded
/// says so.
pub proof fn law_a_settlement_does_what_its_ruling_says(s: SettlementView, shown: Seq<char>)
    ensures
        !may_act(s) ==> (first_step(s, shown) matches StepView::Escalate {
            review_id,
            reason,
            decision,
        } && {
            &&& review_id == s.item.id
            &&& reason == "proposed"@
            &&& is_about(
                decision,
                s,
                called(s.ruling.same),
                s.ruling.why,
                "proposed"@,
                None,
            )
        }),
        may_act(s) && s.ruling.same == Some(true) ==> first_step(s, shown) == (
        StepView::ReadSurvivors { left: s.item.left.id, right: s.item.right.id }),
        may_act(s) && s.ruling.same == Some(false) ==> (first_step(s, shown) matches
            StepView::Close { review_id, status, reason, decision, audit } && {
            &&& review_id == s.item.id
            &&& status == "kept"@
            &&& reason == "governed|"@ + shown
            &&& is_about(decision, s, "keep"@, s.ruling.why, "applied"@, None)
            &&& audit == "review.keep"@
        }),
        may_act(s) ==> s.ruling.same is Some,
{
    let (a, b) = (s.item.left.type_label, s.item.right.type_label);
    assert((a is Some && b is Some && a != b) == types_differ(s.item));
}

/// The pair is closed as merged, with the decision that the ruling calls for.
pub open spec fn is_closed_as_merged(
    step: StepView,
    s: SettlementView,
    shown: Seq<char>,
    merge_id: Option<u128>,
) -> bool {
    step matches StepView::Close { review_id, status, reason, decision, audit } && {
        &&& review_id == s.item.id
        &&& status == "merged"@
        &&& reason == "governed|"@ + shown
        &&& is_about(decision, s, called(s.ruling.same), s.ruling.why, "applied"@, merge_id)
        &&& audit == "review.merge"@
    }
}

/// Two survivors are merged; one record that both have become needs no merge, and
/// the pair is closed. After a merge the pair is closed with its identifier. Where
/// one of the entities has gone or changed, the pair goes to a person as undecided;
/// any other error is passed on as it is.
pub proof fn law_survivors_are_merged_and_the_pair_closed(
    s: SettlementView,
    shown: Seq<char>,
    left: u128,
    right: u128,
    merged: Result<u128, AppError>,
)
    ensures
        left != right ==> step_after_survivors(s, shown, left, right) == (StepView::Merge {
            left,
            right,
            reason: "governed|"@ + shown,
        }),
        left == right ==> is_closed_as_merged(
            step_after_survivors(s, shown, left, right),
            s,
            shown,
            None,
        ),
        merged matches Ok(id) ==> is_closed_as_merged(
            step_after_merge(s, shown, merged),
            s,
            shown,
            Some(id),
        ),
        merged matches Err(e) ==> {
            &&& e is Conflict || e is NotFound ==> (step_after_merge(s, shown, merged) matches
                StepView::Escalate { review_id, reason, decision } && {
                &&& review_id == s.item.id
                &&& reason == "escalate_entity_changed"@
                &&& is_about(
                    decision,
                    s,
                    "unsure"@,
                    Some("one side changed while this cluster was being decided"@),
                    "proposed"@,
                    None,
                )
            })
            &&& e !is Conflict && e !is NotFound ==> step_after_merge(s, shown, merged)
                == StepView::Fail(e)
        },
{
}

/// The entry of the ledger is about the pair, and tells its names, its score, the
/// confidence, and which decision of the governor it was.
pub proof fn law_the_ledger_is_told_of_the_decision(
    s: SettlementView,
    action: Seq<char>,
    decision_id: u128,
)
    ensures
        ({
            let a = governor_audit(s, action, decision_id);
            &&& a.action == action
            &&& a.review_id == s.item.id
            &&& has_members(a.detail, 6)
            &&& has_member(a.detail, "left"@, JsonView::Text(s.item.left.name))
            &&& has_member(a.detail, "right"@, JsonView::Text(s.item.right.name))
            &&& has_member(a.detail, "score"@, s.item.score)
            &&& has_member(a.detail, "confidence"@, JsonView::Single(s.ruling.confidence))
            &&& has_member(a.detail, "via"@, JsonView::Text("governor"@))
            &&& has_member(a.detail, "decision"@, JsonView::Text(id_text(decision_id)))
        }),
{
    let m = governor_audit(s, action, decision_id).detail->Object_0;
    assert(m[0].0 == "left"@);
    assert(m[1].0 == "right"@);
    assert(m[2].0 == "score"@);
    assert(m[3].0 == "confidence"@);
    assert(m[4].0 == "via"@);
    assert(m[5].0 == "decision"@);
}

// ---- The order of a run ----

/// A run that may begin reads the switch first and has nineteen more rounds. Where
/// the switch is on it lists the head of the queue alone; with a head, the pairs
/// around it, at most eleven; without one it ends.
pub proof fn law_a_run_takes_the_head_and_its_cluster(
    kb_id: u128,
    run_id: u128,
    s: GovernorView,
    items: Seq<ItemView>,
    siblings: Seq<ItemView>,
)
    ensures
        begun(kb_id, run_id, true, true).1 is ReadSwitch,
        begun(kb_id, run_id, true, true).0 == (GovernorView {
            kb_id,
            run_id,
            rounds: 19,
            phase: Phase::Switch,
            items: Seq::empty(),
            precedents: Seq::empty(),
        }),
        switched(s, true) == (
            GovernorView { phase: Phase::Head, ..s },
            NextView::ListHead { limit: 1 },
        ),
        items.len() == 0 ==> headed(s, items).1 is Finish,
        items.len() > 0 ==> headed(s, items).1 == (NextView::ListCluster {
            head: items[0],
            limit: 11,
        }) && headed(s, items).0 == (GovernorView {
            phase: Phase::Cluster,
            items: seq![items[0]],
            ..s
        }),
        s.items.len() > 0 ==> clustered(s, siblings).1 == (NextView::ReadPrecedents {
            item: s.items[0],
        }) && clustered(s, siblings).0 == (GovernorView {
            phase: Phase::Reading,
            items: s.items + siblings,
            ..s
        }),
{
}

/// The precedents of each pair are read, pair after pair; then all pairs of the
/// cluster go to the model in one question, each with its own precedents.
pub proof fn law_every_pair_is_asked_with_its_precedents(s: GovernorView, p: PrecedentsView)
    requires
        s.precedents.len() < s.items.len(),
    ensures
        ({
            let (next, step) = read(s, p);
            let n = s.precedents.len() as int;
            &&& next.precedents == s.precedents.push(p)
            &&& next.items == s.items
            &&& next.kb_id == s.kb_id && next.run_id == s.run_id && next.rounds == s.rounds
            &&& n + 1 < s.items.len() ==> step == (NextView::ReadPrecedents {
                item: s.items[n + 1],
            }) && next.phase == s.phase
            &&& n + 1 == s.items.len() ==> next.phase == Phase::Asking && (step matches
                NextView::Ask { pairs } && pairs.len() == s.items.len() && forall|i: int|
                0 <= i < pairs.len() ==> #[trigger] pairs[i] == asked_pair(
                    s.items[i],
                    lines(next.precedents[i]),
                ))
        }),
{
}

/// After a cluster the run forgets it and reads the switch for the next round while
/// rounds are left; after the last it looks for pairs that are left, and queues a
/// run on the same knowledge base where there are any.
pub proof fn law_a_run_hands_over_what_is_left(
    s: GovernorView,
    verdicts: Seq<VerdictView>,
    items: Seq<ItemView>,
)
    ensures
        answered(s, verdicts).0 == (GovernorView {
            phase: Phase::Settling,
            items: Seq::empty(),
            precedents: Seq::empty(),
            ..s
        }),
        s.rounds > 0 ==> settled(s) == (
            GovernorView { phase: Phase::Switch, rounds: (s.rounds - 1) as nat, ..s },
            NextView::ReadSwitch,
        ),
        s.rounds == 0 ==> settled(s) == (
            GovernorView { phase: Phase::Backlog, ..s },
            NextView::ListBacklog { limit: 1 },
        ),
        items.len() == 0 ==> left_over(s, items).1 is Finish,
        items.len() > 0 ==> (left_over(s, items).1 matches NextView::Enqueue(job)
            && is_job_on(job, "govern"@, s.kb_id)),
{
    law_a_job_names_its_knowledge_base("govern"@, s.kb_id);
}

// ---- Jobs ----

/// The job is of this kind, and names this knowledge base and nothing else.
pub open spec fn is_job_on(job: JobView, kind: Seq<char>, kb_id: u128) -> bool {
    &&& job.kind == kind
    &&& has_members(job.payload, 1)
    &&& has_member(job.payload, "kb_id"@, JsonView::Text(id_text(kb_id)))
}

/// A job on a knowledge base names it.
pub proof fn law_a_job_names_its_knowledge_base(kind: Seq<char>, kb_id: u128)
    ensures
        is_job_on(on_kb(kind, kb_id), kind, kb_id),
{
    let m = on_kb(kind, kb_id).payload->Object_0;
    assert(m[0].0 == "kb_id"@);
}

} // verus!
