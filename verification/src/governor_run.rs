//! A run of the governor over the queue of one knowledge base.
//!
//! The head of the queue and the pairs around it go to the model in one call.
//! Between two such clusters the run looks at the switch, and stops where it was
//! switched off. After its rounds it queues another run, if pairs are left.

use vstd::prelude::*;

use crate::governance::{dated, lines, render_lines, Precedents, PrecedentsView};
use crate::governor::{Settlement, SettlementView};
use crate::jobs::{kb_job, on_kb, Job, JobView};
use crate::review::{
    asked_pair, find_ruling, pair, ruling_on, AdjudicationPair, AdjudicationVerdict,
    AskedPairView, ItemView, ReviewItem, Ruling, RulingView, VerdictView,
};
use crate::single::{Single, ZERO};

verus! {

/// How many pairs go to the model in one call: the head of the queue and the
/// pairs around it.
pub const BATCH_SIZE: i64 = 12;

/// How many rounds a run takes before another run goes on, so that other
/// knowledge bases have their turn.
pub const MAX_ROUNDS: usize = 20;

/// The kind of the job that runs the governor.
pub const GOVERN_JOB: &'static str = "govern";

/// What the run wants next.
#[derive(Debug)]
pub enum Next {
    /// Read the switch of the knowledge base.
    ReadSwitch,
    /// List this many pairs from the head of the queue.
    ListHead { limit: i64 },
    /// List at most this many pairs that share a name or an entity with it.
    ListCluster { head: ReviewItem, limit: i64 },
    /// Read what people decided about this pair.
    ReadPrecedents { item: ReviewItem },
    /// Put these pairs to the model, in one call.
    Ask { pairs: Vec<AdjudicationPair> },
    /// Settle these, in order, then tell the clients that the queue has changed.
    Settle { settlements: Vec<Settlement> },
    /// List this many pairs, to see whether any are left.
    ListBacklog { limit: i64 },
    /// Queue the job, and be done.
    Enqueue(Job),
    Finish,
}

/// What a [`Next`] holds.
pub enum NextView {
    ReadSwitch,
    ListHead { limit: i64 },
    ListCluster { head: ItemView, limit: i64 },
    ReadPrecedents { item: ItemView },
    Ask { pairs: Seq<AskedPairView> },
    Settle { settlements: Seq<SettlementView> },
    ListBacklog { limit: i64 },
    Enqueue(JobView),
    Finish,
}

impl DeepView for Next {
    type V = NextView;

    open spec fn deep_view(&self) -> NextView {
        match *self {
            Next::ReadSwitch => NextView::ReadSwitch,
            Next::ListHead { limit } => NextView::ListHead { limit },
            Next::ListCluster { head, limit } => NextView::ListCluster {
                head: head.deep_view(),
                limit,
            },
            Next::ReadPrecedents { item } => NextView::ReadPrecedents { item: item.deep_view() },
            Next::Ask { pairs } => NextView::Ask { pairs: pairs.deep_view() },
            Next::Settle { settlements } => NextView::Settle {
                settlements: settlements.deep_view(),
            },
            Next::ListBacklog { limit } => NextView::ListBacklog { limit },
            Next::Enqueue(job) => NextView::Enqueue(job.deep_view()),
            Next::Finish => NextView::Finish,
        }
    }
}

/// What the run waits for.
#[derive(Debug, Clone, Copy, PartialEq, Eq, Structural)]
pub enum Phase {
    Switch,
    Head,
    Cluster,
    Reading,
    Asking,
    Settling,
    Backlog,
    Finished,
}

#[derive(Debug)]
pub struct Governor {
    kb_id: u128,
    run_id: u128,
    rounds: usize,
    phase: Phase,
    items: Vec<ReviewItem>,
    precedents: Vec<Precedents>,
}

/// The state of a [`Governor`].
pub struct GovernorView {
    pub kb_id: u128,
    pub run_id: u128,
    /// How many rounds may still begin.
    pub rounds: nat,
    pub phase: Phase,
    /// The pairs of the cluster, its head first.
    pub items: Seq<ItemView>,
    /// The precedents of the first of them.
    pub precedents: Seq<PrecedentsView>,
}

impl View for Governor {
    type V = GovernorView;

    closed spec fn view(&self) -> GovernorView {
        GovernorView {
            kb_id: self.kb_id,
            run_id: self.run_id,
            rounds: self.rounds as nat,
            phase: self.phase,
            items: self.items.deep_view(),
            precedents: self.precedents.deep_view(),
        }
    }
}

impl GovernorView {
    /// What every state of a run keeps.
    pub open spec fn wf(self) -> bool {
        &&& forall|i: int|
            0 <= i < self.precedents.len() ==> dated(#[trigger] self.precedents[i])
        &&& self.phase == Phase::Cluster ==> self.items.len() == 1 && self.precedents.len() == 0
        &&& self.phase == Phase::Reading ==> self.precedents.len() < self.items.len()
        &&& self.phase == Phase::Asking ==> self.precedents.len() == self.items.len()
        &&& self.phase == Phase::Switch || self.phase == Phase::Head || self.phase
            == Phase::Settling ==> self.items.len() == 0 && self.precedents.len() == 0
    }
}

// ---- The rules ----

pub open spec fn finished(s: GovernorView) -> (GovernorView, NextView) {
    (GovernorView { phase: Phase::Finished, ..s }, NextView::Finish)
}

/// A run begins only where the switch is on and there is a model: a ruling
/// without grounds is worse than none, and the queue waits.
pub open spec fn begun(kb_id: u128, run_id: u128, on: bool, has_model: bool) -> (
    GovernorView,
    NextView,
) {
    let s = GovernorView {
        kb_id,
        run_id,
        rounds: (MAX_ROUNDS - 1) as nat,
        phase: Phase::Switch,
        items: Seq::empty(),
        precedents: Seq::empty(),
    };
    if on && has_model {
        (s, NextView::ReadSwitch)
    } else {
        finished(s)
    }
}

pub open spec fn switched(s: GovernorView, on: bool) -> (GovernorView, NextView) {
    if on {
        (GovernorView { phase: Phase::Head, ..s }, NextView::ListHead { limit: 1 })
    } else {
        finished(s)
    }
}

pub open spec fn headed(s: GovernorView, items: Seq<ItemView>) -> (GovernorView, NextView) {
    if items.len() > 0 {
        (
            GovernorView { phase: Phase::Cluster, items: seq![items[0]], ..s },
            NextView::ListCluster { head: items[0], limit: (BATCH_SIZE - 1) as i64 },
        )
    } else {
        finished(s)
    }
}

pub open spec fn clustered(s: GovernorView, siblings: Seq<ItemView>) -> (GovernorView, NextView) {
    (
        GovernorView { phase: Phase::Reading, items: s.items + siblings, ..s },
        NextView::ReadPrecedents { item: s.items[0] },
    )
}

/// Each pair of the cluster with its precedents.
pub open spec fn questions(items: Seq<ItemView>, precedents: Seq<PrecedentsView>) -> Seq<
    AskedPairView,
> {
    Seq::new(items.len(), |i: int| asked_pair(items[i], lines(precedents[i])))
}

pub open spec fn read(s: GovernorView, p: PrecedentsView) -> (GovernorView, NextView) {
    let known = s.precedents.push(p);
    if known.len() < s.items.len() {
        (
            GovernorView { precedents: known, ..s },
            NextView::ReadPrecedents { item: s.items[known.len() as int] },
        )
    } else {
        (
            GovernorView { phase: Phase::Asking, precedents: known, ..s },
            NextView::Ask { pairs: questions(s.items, known) },
        )
    }
}

/// A pair that the model passed over counts as unsure, with no confidence.
pub open spec fn ruling_or_unsure(verdicts: Seq<VerdictView>, i: int) -> RulingView {
    match ruling_on(verdicts, i) {
        Some(r) => r,
        None => RulingView { same: None, confidence: Single { bits: ZERO }, why: None },
    }
}

pub open spec fn settlements_of(s: GovernorView, verdicts: Seq<VerdictView>) -> Seq<
    SettlementView,
> {
    Seq::new(
        s.items.len(),
        |i: int|
            SettlementView {
                run_id: s.run_id,
                item: s.items[i],
                precedents: s.precedents[i],
                ruling: ruling_or_unsure(verdicts, i),
            },
    )
}

pub open spec fn answered(s: GovernorView, verdicts: Seq<VerdictView>) -> (
    GovernorView,
    NextView,
) {
    (
        GovernorView {
            phase: Phase::Settling,
            items: Seq::empty(),
            precedents: Seq::empty(),
            ..s
        },
        NextView::Settle { settlements: settlements_of(s, verdicts) },
    )
}

/// The next round begins at the switch; after the last one the queue is looked
/// at once more.
pub open spec fn settled(s: GovernorView) -> (GovernorView, NextView) {
    if s.rounds > 0 {
        (
            GovernorView { phase: Phase::Switch, rounds: (s.rounds - 1) as nat, ..s },
            NextView::ReadSwitch,
        )
    } else {
        (GovernorView { phase: Phase::Backlog, ..s }, NextView::ListBacklog { limit: 1 })
    }
}

pub open spec fn left_over(s: GovernorView, items: Seq<ItemView>) -> (GovernorView, NextView) {
    if items.len() > 0 {
        (
            GovernorView { phase: Phase::Finished, ..s },
            NextView::Enqueue(on_kb(GOVERN_JOB@, s.kb_id)),
        )
    } else {
        finished(s)
    }
}

// ---- The run ----

impl Governor {
    pub fn start(kb_id: u128, run_id: u128, on: bool, has_model: bool) -> (r: (Governor, Next))
        ensures
            r.0@.wf(),
            (r.0@, r.1.deep_view()) == begun(kb_id, run_id, on, has_model),
    {
        let go: bool = on && has_model;
        let run = Governor {
            kb_id,
            run_id,
            rounds: MAX_ROUNDS - 1,
            phase: if go {
                Phase::Switch
            } else {
                Phase::Finished
            },
            items: Vec::new(),
            precedents: Vec::new(),
        };
        assert(run@.items =~= Seq::empty());
        assert(run@.precedents =~= Seq::empty());
        if go {
            (run, Next::ReadSwitch)
        } else {
            (run, Next::Finish)
        }
    }

    fn finish(&mut self) -> (r: Next)
        requires
            old(self)@.wf(),
        ensures
            final(self)@.wf(),
            (final(self)@, r.deep_view()) == finished(old(self)@),
    {
        let ghost before = self@;
        self.phase = Phase::Finished;
        assert(self@.precedents == before.precedents);
        Next::Finish
    }

    /// The switch was read.
    pub fn switch(&mut self, on: bool) -> (r: Next)
        requires
            old(self)@.wf(),
            old(self)@.phase == Phase::Switch,
        ensures
            final(self)@.wf(),
            (final(self)@, r.deep_view()) == switched(old(self)@, on),
    {
        if !on {
            return self.finish();
        }
        self.phase = Phase::Head;
        Next::ListHead { limit: 1 }
    }

    /// The head of the queue was listed.
    pub fn head(&mut self, items: &Vec<ReviewItem>) -> (r: Next)
        requires
            old(self)@.wf(),
            old(self)@.phase == Phase::Head,
        ensures
            final(self)@.wf(),
            (final(self)@, r.deep_view()) == headed(old(self)@, items.deep_view()),
    {
        if items.len() == 0 {
            return self.finish();
        }
        let head: ReviewItem = items[0].copy();
        self.items = vec![items[0].copy()];
        assert(self.items.deep_view() =~= seq![items.deep_view()[0]]);
        self.phase = Phase::Cluster;
        Next::ListCluster { head, limit: BATCH_SIZE - 1 }
    }

    /// The pairs around the head were listed.
    pub fn cluster(&mut self, siblings: Vec<ReviewItem>) -> (r: Next)
        requires
            old(self)@.wf(),
            old(self)@.phase == Phase::Cluster,
        ensures
            final(self)@.wf(),
            (final(self)@, r.deep_view()) == clustered(old(self)@, siblings.deep_view()),
    {
        let ghost before = self@;
        let ghost more = siblings.deep_view();
        let mut siblings: Vec<ReviewItem> = siblings;
        self.items.append(&mut siblings);
        assert(self.items.deep_view() =~= before.items + more);
        self.phase = Phase::Reading;
        assert(self@.items[0] == before.items[0]);
        Next::ReadPrecedents { item: self.items[0].copy() }
    }

    /// The precedents of the next pair were read.
    pub fn precedents(&mut self, p: Precedents) -> (r: Next)
        requires
            old(self)@.wf(),
            old(self)@.phase == Phase::Reading,
            dated(p.deep_view()),
        ensures
            final(self)@.wf(),
            (final(self)@, r.deep_view()) == read(old(self)@, p.deep_view()),
    {
        let ghost before = self@;
        let ghost new = p.deep_view();
        self.precedents.push(p);
        let ghost known = before.precedents.push(new);
        assert(self.precedents.deep_view() =~= known);
        assert forall|i: int| 0 <= i < known.len() implies dated(#[trigger] known[i]) by {
            if i < before.precedents.len() {
                assert(dated(before.precedents[i]));
            }
        }
        let n: usize = self.precedents.len();
        if n < self.items.len() {
            return Next::ReadPrecedents { item: self.items[n].copy() };
        }
        let mut pairs: Vec<AdjudicationPair> = Vec::new();
        let ghost all = questions(before.items, known);
        assert(all.take(0) =~= Seq::empty());
        assert(pairs.deep_view() =~= Seq::empty());
        for i in 0..n
            invariant
                n == self.precedents@.len(),
                n == self.items@.len(),
                before.items == self.items.deep_view(),
                known == self.precedents.deep_view(),
                forall|i: int| 0 <= i < known.len() ==> dated(#[trigger] known[i]),
                all == questions(before.items, known),
                pairs.deep_view() == all.take(i as int),
        {
            assert(dated(known[i as int]));
            let ghost sofar = pairs.deep_view();
            let asked: AdjudicationPair = pair(&self.items[i], render_lines(&self.precedents[i]));
            let ghost new = asked.deep_view();
            pairs.push(asked);
            assert(pairs.deep_view() =~= sofar.push(new));
            assert(all.take(i + 1) =~= sofar.push(all[i as int]));
        }
        assert(all.take(n as int) =~= all);
        self.phase = Phase::Asking;
        Next::Ask { pairs }
    }

    /// The model has answered.
    pub fn answered(&mut self, verdicts: &Vec<AdjudicationVerdict>) -> (r: Next)
        requires
            old(self)@.wf(),
            old(self)@.phase == Phase::Asking,
        ensures
            final(self)@.wf(),
            (final(self)@, r.deep_view()) == answered(old(self)@, verdicts.deep_view()),
            r matches Next::Settle { settlements } && forall|i: int|
                0 <= i < settlements@.len() ==> dated(
                    (#[trigger] settlements.deep_view()[i]).precedents,
                ),
    {
        let ghost before = self@;
        let ghost said = verdicts.deep_view();
        let ghost all = settlements_of(before, said);
        let mut items: Vec<ReviewItem> = Vec::new();
        let mut precedents: Vec<Precedents> = Vec::new();
        std::mem::swap(&mut items, &mut self.items);
        std::mem::swap(&mut precedents, &mut self.precedents);
        assert(self.items.deep_view() =~= Seq::empty());
        assert(self.precedents.deep_view() =~= Seq::empty());
        self.phase = Phase::Settling;
        let run_id: u128 = self.run_id;
        let n: usize = items.len();
        let mut settlements: Vec<Settlement> = Vec::new();
        assert(settlements.deep_view() =~= Seq::empty());
        assert(all.take(0) =~= Seq::empty());
        let mut i: usize = 0;
        let ghost pairs = items.deep_view();
        let ghost known = precedents.deep_view();
        while i < n
            invariant
                i <= n,
                n == pairs.len(),
                n == known.len(),
                items.deep_view() == pairs.skip(i as int),
                precedents.deep_view() == known.skip(i as int),
                pairs == before.items,
                known == before.precedents,
                run_id == before.run_id,
                said == verdicts.deep_view(),
                all == settlements_of(before, said),
                settlements.deep_view() == all.take(i as int),
            decreases n - i,
        {
            let ghost sofar = settlements.deep_view();
            assert(items.deep_view().len() == n - i);
            assert(precedents.deep_view().len() == n - i);
            let item: ReviewItem = items.remove(0);
            let p: Precedents = precedents.remove(0);
            assert(item.deep_view() == pairs.skip(i as int)[0]);
            assert(p.deep_view() == known.skip(i as int)[0]);
            assert(items.deep_view() =~= pairs.skip(i as int).drop_first());
            assert(precedents.deep_view() =~= known.skip(i as int).drop_first());
            assert(pairs.skip(i as int).drop_first() =~= pairs.skip(i + 1));
            assert(known.skip(i as int).drop_first() =~= known.skip(i + 1));
            let zero = Single { bits: ZERO };
            let ruling: Ruling = match find_ruling(verdicts, i) {
                Some(r) => r,
                None => Ruling { same: None, confidence: zero, why: None },
            };
            let settlement = Settlement { run_id, item, precedents: p, ruling };
            let ghost new = settlement.deep_view();
            assert(new == all[i as int]);
            settlements.push(settlement);
            assert(settlements.deep_view() =~= sofar.push(new));
            assert(all.take(i + 1) =~= sofar.push(all[i as int]));
            i = i + 1;
        }
        assert(all.take(n as int) =~= all);
        Next::Settle { settlements }
    }

    /// The cluster was settled.
    pub fn settled(&mut self) -> (r: Next)
        requires
            old(self)@.wf(),
            old(self)@.phase == Phase::Settling,
        ensures
            final(self)@.wf(),
            (final(self)@, r.deep_view()) == settled(old(self)@),
    {
        if self.rounds > 0 {
            self.rounds = self.rounds - 1;
            self.phase = Phase::Switch;
            Next::ReadSwitch
        } else {
            self.phase = Phase::Backlog;
            Next::ListBacklog { limit: 1 }
        }
    }

    /// What is left of the queue was listed.
    pub fn backlog(&mut self, items: &Vec<ReviewItem>) -> (r: Next)
        requires
            old(self)@.wf(),
            old(self)@.phase == Phase::Backlog,
        ensures
            final(self)@.wf(),
            (final(self)@, r.deep_view()) == left_over(old(self)@, items.deep_view()),
    {
        if items.len() == 0 {
            return self.finish();
        }
        let ghost before = self@;
        self.phase = Phase::Finished;
        assert(self@.precedents == before.precedents);
        Next::Enqueue(kb_job(GOVERN_JOB, self.kb_id))
    }
}

/// A person has decided a pair; `on` is the switch, where it could be read. With
/// the switch on, a run is queued: the pairs around that one are looked at again.
pub fn after_human_decision(kb_id: u128, on: Option<bool>) -> (r: Option<Job>)
    ensures
        r.deep_view() == if on == Some(true) {
            Some(on_kb(GOVERN_JOB@, kb_id))
        } else {
            None
        },
{
    match on {
        Some(true) => Some(kb_job(GOVERN_JOB, kb_id)),
        _ => None,
    }
}

} // verus!
