//! The governor: it takes the pairs that wait for people, reads the ledger, asks
//! the model, and settles what may be applied.

use vstd::prelude::*;
use vstd::string::*;

use crate::adjudication::{AuditEntry, AuditView};
use crate::error::AppError;
use crate::governance::{
    dated, gate, gated, precedents_json, recorded, DecisionView, Gate, NewDecision, Precedents,
    PrecedentsView,
};
use crate::ids::{id_json, id_text};
use crate::json::{array, member, object, text, Json, JsonView, Member};
use crate::review::{ItemView, ReviewItem, Ruling, RulingView};
use crate::single::Single;
use crate::strings::same_option;

verus! {

/// A pair that is settled, with what is known of it.
#[derive(Debug)]
pub struct Settlement {
    pub run_id: u128,
    pub item: ReviewItem,
    pub precedents: Precedents,
    pub ruling: Ruling,
}

/// What a [`Settlement`] holds.
pub struct SettlementView {
    pub run_id: u128,
    pub item: ItemView,
    pub precedents: PrecedentsView,
    pub ruling: RulingView,
}

impl DeepView for Settlement {
    type V = SettlementView;

    open spec fn deep_view(&self) -> SettlementView {
        SettlementView {
            run_id: self.run_id,
            item: self.item.deep_view(),
            precedents: self.precedents.deep_view(),
            ruling: self.ruling.deep_view(),
        }
    }
}

/// The next step in settling a pair.
#[derive(Debug)]
pub enum Step {
    /// Find the records that the two have been merged into by now.
    ReadSurvivors { left: u128, right: u128 },
    /// Merge the two, into whichever is to survive.
    Merge { left: u128, right: u128, reason: String },
    /// Close the pair, record the decision, write the ledger, and be done.
    Close {
        review_id: u128,
        status: &'static str,
        reason: String,
        decision: NewDecision,
        audit: &'static str,
    },
    /// Hand the pair to a person, record the decision, and be done.
    Escalate { review_id: u128, reason: &'static str, decision: NewDecision },
    /// Give up with this error.
    Fail(AppError),
}

/// What a [`Step`] holds.
pub enum StepView {
    ReadSurvivors { left: u128, right: u128 },
    Merge { left: u128, right: u128, reason: Seq<char> },
    Close {
        review_id: u128,
        status: Seq<char>,
        reason: Seq<char>,
        decision: DecisionView,
        audit: Seq<char>,
    },
    Escalate { review_id: u128, reason: Seq<char>, decision: DecisionView },
    Fail(AppError),
}

impl DeepView for Step {
    type V = StepView;

    open spec fn deep_view(&self) -> StepView {
        match *self {
            Step::ReadSurvivors { left, right } => StepView::ReadSurvivors { left, right },
            Step::Merge { left, right, reason } => StepView::Merge {
                left,
                right,
                reason: reason@,
            },
            Step::Close { review_id, status, reason, decision, audit } => StepView::Close {
                review_id,
                status: status@,
                reason: reason@,
                decision: decision.deep_view(),
                audit: audit@,
            },
            Step::Escalate { review_id, reason, decision } => StepView::Escalate {
                review_id,
                reason: reason@,
                decision: decision.deep_view(),
            },
            Step::Fail(e) => StepView::Fail(e),
        }
    }
}

// ---- The rules ----

/// Both sides have a type, and not the same one.
pub open spec fn conflicting(item: ItemView) -> bool {
    item.left.type_label is Some && item.right.type_label is Some && item.left.type_label
        != item.right.type_label
}

pub open spec fn action_word(same: Option<bool>) -> Seq<char> {
    match same {
        Some(s) => if s {
            "merge"@
        } else {
            "keep"@
        },
        None => "unsure"@,
    }
}

pub open spec fn passes(s: SettlementView) -> bool {
    gated(s.ruling.same, s.ruling.confidence, conflicting(s.item), s.precedents) == Gate::Apply
}

/// The decision that is recorded.
pub open spec fn decided(
    s: SettlementView,
    status: Seq<char>,
    merge_id: Option<u128>,
) -> DecisionView {
    DecisionView {
        run_id: s.run_id,
        target_id: s.item.id,
        action: action_word(s.ruling.same),
        confidence: s.ruling.confidence,
        reason: s.ruling.why,
        precedents: recorded(s.precedents),
        status,
        merge_id,
        question: None,
        trace: JsonView::Array(Seq::empty()),
        calls: 0,
    }
}

/// The decision that is recorded where one of the two entities has changed, so
/// that the next round does not run into the pair again.
pub open spec fn undecided(s: SettlementView) -> DecisionView {
    DecisionView {
        action: "unsure"@,
        reason: Some("one side changed while this cluster was being decided"@),
        ..decided(s, "proposed"@, None)
    }
}

pub open spec fn governed_text(shown: Seq<char>) -> Seq<char> {
    "governed|"@ + shown
}

pub open spec fn closed_as_merged(
    s: SettlementView,
    shown: Seq<char>,
    merge_id: Option<u128>,
) -> StepView {
    StepView::Close {
        review_id: s.item.id,
        status: "merged"@,
        reason: governed_text(shown),
        decision: decided(s, "applied"@, merge_id),
        audit: "review.merge"@,
    }
}

/// What may be applied is done, and the rest is proposed.
pub open spec fn first_step(s: SettlementView, shown: Seq<char>) -> StepView {
    if !passes(s) {
        StepView::Escalate {
            review_id: s.item.id,
            reason: "proposed"@,
            decision: decided(s, "proposed"@, None),
        }
    } else if s.ruling.same == Some(true) {
        StepView::ReadSurvivors { left: s.item.left.id, right: s.item.right.id }
    } else {
        StepView::Close {
            review_id: s.item.id,
            status: "kept"@,
            reason: governed_text(shown),
            decision: decided(s, "applied"@, None),
            audit: "review.keep"@,
        }
    }
}

/// An earlier merge of the cluster may have merged one of the two into another
/// record, or both into one: then only the pair is left to close.
pub open spec fn step_after_survivors(
    s: SettlementView,
    shown: Seq<char>,
    left: u128,
    right: u128,
) -> StepView {
    if left == right {
        closed_as_merged(s, shown, None)
    } else {
        StepView::Merge { left, right, reason: governed_text(shown) }
    }
}

pub open spec fn step_after_merge(
    s: SettlementView,
    shown: Seq<char>,
    merged: Result<u128, AppError>,
) -> StepView {
    match merged {
        Ok(merge_id) => closed_as_merged(s, shown, Some(merge_id)),
        Err(AppError::Conflict(_)) => StepView::Escalate {
            review_id: s.item.id,
            reason: "escalate_entity_changed"@,
            decision: undecided(s),
        },
        Err(AppError::NotFound) => StepView::Escalate {
            review_id: s.item.id,
            reason: "escalate_entity_changed"@,
            decision: undecided(s),
        },
        Err(e) => StepView::Fail(e),
    }
}

/// The entry that the ledger gets: nobody signed it, and it names the decision.
pub open spec fn governor_audit(
    s: SettlementView,
    action: Seq<char>,
    decision_id: u128,
) -> AuditView {
    AuditView {
        action,
        review_id: s.item.id,
        detail: JsonView::Object(
            seq![
                ("left"@, JsonView::Text(s.item.left.name)),
                ("right"@, JsonView::Text(s.item.right.name)),
                ("score"@, s.item.score),
                ("confidence"@, JsonView::Single(s.ruling.confidence)),
                ("via"@, JsonView::Text("governor"@)),
                ("decision"@, JsonView::Text(id_text(decision_id))),
            ],
        ),
    }
}

// ---- Settling a pair ----

fn governed(shown: &str) -> (r: String)
    ensures
        r@ == governed_text(shown@),
{
    let mut out: String = "governed|".to_owned();
    out.append(shown);
    out
}

impl Settlement {
    fn types_conflict(&self) -> (r: bool)
        ensures
            r == conflicting(self.item.deep_view()),
    {
        self.item.left.type_label.is_some() && self.item.right.type_label.is_some()
            && !same_option(&self.item.left.type_label, &self.item.right.type_label)
    }

    fn decision(&self, status: &'static str, merge_id: Option<u128>) -> (r: NewDecision)
        requires
            dated(self.deep_view().precedents),
        ensures
            r.deep_view() == decided(self.deep_view(), status@, merge_id),
    {
        let action: &'static str = match self.ruling.same {
            Some(true) => "merge",
            Some(false) => "keep",
            None => "unsure",
        };
        let none: Vec<Json> = Vec::new();
        assert(none.deep_view() =~= Seq::<JsonView>::empty());
        NewDecision {
            run_id: self.run_id,
            target_id: self.item.id,
            action,
            confidence: self.ruling.confidence,
            reason: self.ruling.why.clone(),
            precedents: precedents_json(&self.precedents),
            status,
            merge_id,
            question: None,
            trace: array(none),
            calls: 0,
        }
    }

    fn close_as_merged(&self, shown: &str, merge_id: Option<u128>) -> (r: Step)
        requires
            dated(self.deep_view().precedents),
        ensures
            r.deep_view() == closed_as_merged(self.deep_view(), shown@, merge_id),
    {
        Step::Close {
            review_id: self.item.id,
            status: "merged",
            reason: governed(shown),
            decision: self.decision("applied", merge_id),
            audit: "review.merge",
        }
    }

    fn leave_undecided(&self) -> (r: Step)
        requires
            dated(self.deep_view().precedents),
        ensures
            r.deep_view() == (StepView::Escalate {
                review_id: self.item.id,
                reason: "escalate_entity_changed"@,
                decision: undecided(self.deep_view()),
            }),
    {
        let mut decision: NewDecision = self.decision("proposed", None);
        decision.action = "unsure";
        decision.reason = Some(
            "one side changed while this cluster was being decided".to_owned(),
        );
        Step::Escalate {
            review_id: self.item.id,
            reason: "escalate_entity_changed",
            decision,
        }
    }

    /// Begins to settle the pair; `shown` is the confidence with two digits.
    pub fn settle(&self, shown: &str) -> (r: Step)
        requires
            dated(self.deep_view().precedents),
        ensures
            r.deep_view() == first_step(self.deep_view(), shown@),
    {
        let conflict: bool = self.types_conflict();
        match gate(self.ruling.same, self.ruling.confidence, conflict, &self.precedents) {
            Gate::Propose => Step::Escalate {
                review_id: self.item.id,
                reason: "proposed",
                decision: self.decision("proposed", None),
            },
            Gate::Apply => match self.ruling.same {
                Some(true) => Step::ReadSurvivors {
                    left: self.item.left.id,
                    right: self.item.right.id,
                },
                _ => Step::Close {
                    review_id: self.item.id,
                    status: "kept",
                    reason: governed(shown),
                    decision: self.decision("applied", None),
                    audit: "review.keep",
                },
            },
        }
    }

    /// The survivors of the two sides are known.
    pub fn after_survivors(&self, shown: &str, left: u128, right: u128) -> (r: Step)
        requires
            dated(self.deep_view().precedents),
        ensures
            r.deep_view() == step_after_survivors(self.deep_view(), shown@, left, right),
    {
        if left == right {
            self.close_as_merged(shown, None)
        } else {
            Step::Merge { left, right, reason: governed(shown) }
        }
    }

    /// The merge was tried.
    pub fn after_merge(&self, shown: &str, merged: Result<u128, AppError>) -> (r: Step)
        requires
            dated(self.deep_view().precedents),
        ensures
            r.deep_view() == step_after_merge(self.deep_view(), shown@, merged),
    {
        match merged {
            Ok(merge_id) => self.close_as_merged(shown, Some(merge_id)),
            Err(AppError::Conflict(_)) => self.leave_undecided(),
            Err(AppError::NotFound) => self.leave_undecided(),
            Err(e) => Step::Fail(e),
        }
    }

    /// The entry for the ledger, once the decision has its identifier.
    pub fn audit(&self, action: &'static str, decision_id: u128) -> (r: AuditEntry)
        ensures
            r.deep_view() == governor_audit(self.deep_view(), action@, decision_id),
    {
        let members: Vec<Member> = vec![
            member("left", text(self.item.left.name.as_str())),
            member("right", text(self.item.right.name.as_str())),
            member("score", self.item.score.copy()),
            member("confidence", Json::Single(self.ruling.confidence)),
            member("via", text("governor")),
            member("decision", id_json(decision_id)),
        ];
        assert(members.deep_view() =~= governor_audit(
            self.deep_view(),
            action@,
            decision_id,
        ).detail->Object_0);
        AuditEntry { action, review_id: self.item.id, detail: object(members) }
    }
}

} // verus!
