//! A run of the adjudicator over the queue of one knowledge base.
//!
//! The run says what to do next, and is told what came of it: it lists the pairs
//! of a round, looks each of them up in the cache, asks the model about those that
//! are not there, and has the rulings carried out. Without a model it hands every
//! pair of the queue to a person, and ends with the list that reached its end.

use vstd::prelude::*;

use crate::adjudication::{key_of, pair_key, BATCH_SIZE, MAX_ROUNDS, NO_MODEL_BATCH};
use crate::governance::{dated, lines, render_lines, Precedents, PrecedentsView};
use crate::review::{
    asked_pair, find_ruling, pair, ruling_on, AdjudicationPair, AdjudicationVerdict,
    AskedPairView, ItemView, ReviewItem, Ruling, RulingView, VerdictView,
};
use crate::single::Single;
use crate::strings::copy_all;

verus! {

/// A pair that the cache does not know, with its key and its precedents.
#[derive(Debug)]
pub struct Asked {
    pub item: ReviewItem,
    pub key: String,
    pub precedents: Vec<String>,
}

/// What an [`Asked`] holds.
pub struct AskedView {
    pub item: ItemView,
    pub key: Seq<char>,
    pub precedents: Seq<Seq<char>>,
}

impl DeepView for Asked {
    type V = AskedView;

    open spec fn deep_view(&self) -> AskedView {
        AskedView {
            item: self.item.deep_view(),
            key: self.key@,
            precedents: self.precedents.deep_view(),
        }
    }
}

/// Something to carry out.
#[derive(Debug)]
pub enum Action {
    /// Hand the pair to a person.
    Escalate { review_id: u128, reason: &'static str },
    /// Remember the ruling under the key.
    Store { key: String, same: Option<bool>, confidence: Single, model: String },
    /// Carry out the ruling on the pair.
    Apply { item: ReviewItem, ruling: Ruling, via: &'static str },
    /// Tell the clients that the queue has changed.
    Emit,
}

/// What an [`Action`] holds.
pub enum ActionView {
    Escalate { review_id: u128, reason: Seq<char> },
    Store { key: Seq<char>, same: Option<bool>, confidence: Single, model: Seq<char> },
    Apply { item: ItemView, ruling: RulingView, via: Seq<char> },
    Emit,
}

impl DeepView for Action {
    type V = ActionView;

    open spec fn deep_view(&self) -> ActionView {
        match *self {
            Action::Escalate { review_id, reason } => ActionView::Escalate {
                review_id,
                reason: reason@,
            },
            Action::Store { key, same, confidence, model } => ActionView::Store {
                key: key@,
                same,
                confidence,
                model: model@,
            },
            Action::Apply { item, ruling, via } => ActionView::Apply {
                item: item.deep_view(),
                ruling: ruling.deep_view(),
                via: via@,
            },
            Action::Emit => ActionView::Emit,
        }
    }
}

/// What the run wants next.
#[derive(Debug)]
pub enum Next {
    /// List this many pairs from the head of the queue.
    List { limit: i64 },
    /// Read what people decided about this pair.
    ReadPrecedents { item: ReviewItem },
    /// Look the key up in the cache.
    LookUp { key: String },
    /// Put these pairs to the model, in one call.
    Ask { pairs: Vec<AdjudicationPair> },
    /// Carry these out, in order.
    Act { actions: Vec<Action> },
    Finish,
}

/// What a [`Next`] holds.
pub enum NextView {
    List { limit: i64 },
    ReadPrecedents { item: ItemView },
    LookUp { key: Seq<char> },
    Ask { pairs: Seq<AskedPairView> },
    Act { actions: Seq<ActionView> },
    Finish,
}

impl DeepView for Next {
    type V = NextView;

    open spec fn deep_view(&self) -> NextView {
        match *self {
            Next::List { limit } => NextView::List { limit },
            Next::ReadPrecedents { item } => NextView::ReadPrecedents { item: item.deep_view() },
            Next::LookUp { key } => NextView::LookUp { key: key@ },
            Next::Ask { pairs } => NextView::Ask { pairs: pairs.deep_view() },
            Next::Act { actions } => NextView::Act { actions: actions.deep_view() },
            Next::Finish => NextView::Finish,
        }
    }
}

/// What the run waits for.
#[derive(Debug, Clone, Copy, PartialEq, Eq, Structural)]
pub enum Phase {
    Listing,
    Reading,
    LookingUp,
    Asking,
    Acting,
    /// The last actions: the end of the queue was reached.
    Closing,
    Finished,
}

#[derive(Debug)]
pub struct Run {
    model: Option<String>,
    rounds: usize,
    phase: Phase,
    waiting: Vec<ReviewItem>,
    current: Option<Asked>,
    to_ask: Vec<Asked>,
}

/// The state of a [`Run`].
pub struct RunView {
    /// The model that is asked, where there is one.
    pub model: Option<Seq<char>>,
    /// How many rounds may still begin.
    pub rounds: nat,
    pub phase: Phase,
    /// The pairs of the round that were not looked at yet.
    pub waiting: Seq<ItemView>,
    /// The pair that is looked up.
    pub current: Option<AskedView>,
    /// The pairs of the round that go to the model.
    pub to_ask: Seq<AskedView>,
}

impl View for Run {
    type V = RunView;

    closed spec fn view(&self) -> RunView {
        RunView {
            model: self.model.deep_view(),
            rounds: self.rounds as nat,
            phase: self.phase,
            waiting: self.waiting.deep_view(),
            current: self.current.deep_view(),
            to_ask: self.to_ask.deep_view(),
        }
    }
}

impl RunView {
    /// What every state of a run keeps.
    pub open spec fn wf(self) -> bool {
        &&& self.phase == Phase::Reading ==> self.waiting.len() > 0
        &&& self.phase == Phase::LookingUp <==> self.current is Some
        &&& self.phase == Phase::Asking ==> self.to_ask.len() > 0
        &&& self.phase == Phase::Listing ==> self.waiting.len() == 0 && self.to_ask.len() == 0
        &&& self.phase == Phase::Closing ==> self.model is None
        &&& self.model is None ==> self.rounds == 0 && self.waiting.len() == 0
            && self.to_ask.len() == 0 && self.current is None
    }
}

// ---- The rules ----

pub open spec fn begun(model: Option<Seq<char>>) -> (RunView, NextView) {
    (
        RunView {
            model,
            rounds: if model is Some {
                (MAX_ROUNDS - 1) as nat
            } else {
                0
            },
            phase: Phase::Listing,
            waiting: Seq::empty(),
            current: None,
            to_ask: Seq::empty(),
        },
        NextView::List {
            limit: if model is Some {
                BATCH_SIZE
            } else {
                NO_MODEL_BATCH
            },
        },
    )
}

pub open spec fn pairs_of(asked: Seq<AskedView>) -> Seq<AskedPairView> {
    asked.map_values(|a: AskedView| asked_pair(a.item, a.precedents))
}

/// The next pair of the round; then the question for the model; then the next
/// round, while there is one.
pub open spec fn proceeded(s: RunView) -> (RunView, NextView) {
    if s.waiting.len() > 0 {
        (
            RunView { phase: Phase::Reading, ..s },
            NextView::ReadPrecedents { item: s.waiting[0] },
        )
    } else if s.to_ask.len() > 0 {
        (RunView { phase: Phase::Asking, ..s }, NextView::Ask { pairs: pairs_of(s.to_ask) })
    } else if s.rounds > 0 {
        (
            RunView { phase: Phase::Listing, rounds: (s.rounds - 1) as nat, ..s },
            NextView::List { limit: BATCH_SIZE },
        )
    } else {
        (RunView { phase: Phase::Finished, ..s }, NextView::Finish)
    }
}

/// Without a model every pair goes to a person.
pub open spec fn handed_over(items: Seq<ItemView>) -> Seq<ActionView> {
    items.map_values(
        |x: ItemView|
            ActionView::Escalate { review_id: x.id, reason: "escalate_no_model"@ },
    )
}

/// An empty queue ends the run. Without a model a list that was not full ends it:
/// it reached the end of the queue, and once its pairs are handed over the clients
/// are told.
pub open spec fn listed(s: RunView, items: Seq<ItemView>) -> (RunView, NextView) {
    if s.model is None && items.len() < NO_MODEL_BATCH {
        (
            RunView { phase: Phase::Closing, ..s },
            NextView::Act { actions: handed_over(items).push(ActionView::Emit) },
        )
    } else if s.model is None {
        (
            RunView { phase: Phase::Acting, ..s },
            NextView::Act { actions: handed_over(items) },
        )
    } else if items.len() == 0 {
        (RunView { phase: Phase::Finished, ..s }, NextView::Finish)
    } else {
        proceeded(RunView { waiting: items, ..s })
    }
}

/// The precedents go into the key and, if it comes to that, into the question.
pub open spec fn read(s: RunView, p: PrecedentsView) -> (RunView, NextView) {
    let key = key_of(s.waiting[0], lines(p));
    (
        RunView {
            phase: Phase::LookingUp,
            waiting: s.waiting.drop_first(),
            current: Some(AskedView { item: s.waiting[0], key, precedents: lines(p) }),
            ..s
        },
        NextView::LookUp { key },
    )
}

/// A cached ruling is carried out at once; a pair without one goes to the model.
pub open spec fn looked_up(s: RunView, hit: Option<(Option<bool>, Single)>) -> (
    RunView,
    NextView,
) {
    let asked = s.current->Some_0;
    match hit {
        Some((same, confidence)) => (
            RunView { phase: Phase::Acting, current: None, ..s },
            NextView::Act {
                actions: seq![
                    ActionView::Apply {
                        item: asked.item,
                        ruling: RulingView { same, confidence, why: None },
                        via: "cached"@,
                    },
                ],
            },
        ),
        None => proceeded(RunView { current: None, to_ask: s.to_ask.push(asked), ..s }),
    }
}

/// A ruling is remembered and carried out; a pair that the model passed over
/// goes to a person.
pub open spec fn outcome(asked: AskedView, ruling: Option<RulingView>, model: Seq<char>) -> Seq<
    ActionView,
> {
    match ruling {
        Some(r) => seq![
            ActionView::Store {
                key: asked.key,
                same: r.same,
                confidence: r.confidence,
                model,
            },
            ActionView::Apply { item: asked.item, ruling: r, via: "adjudicated"@ },
        ],
        None => seq![
            ActionView::Escalate { review_id: asked.item.id, reason: "escalate_no_verdict"@ },
        ],
    }
}

/// The outcomes of the first `n` pairs of the question, in order.
pub open spec fn outcomes(
    asked: Seq<AskedView>,
    verdicts: Seq<VerdictView>,
    model: Seq<char>,
    n: int,
) -> Seq<ActionView>
    decreases n,
{
    if n <= 0 {
        Seq::empty()
    } else {
        outcomes(asked, verdicts, model, n - 1) + outcome(
            asked[n - 1],
            ruling_on(verdicts, n - 1),
            model,
        )
    }
}

pub open spec fn answered(s: RunView, verdicts: Seq<VerdictView>) -> (RunView, NextView) {
    (
        RunView { phase: Phase::Acting, to_ask: Seq::empty(), ..s },
        NextView::Act {
            actions: outcomes(
                s.to_ask,
                verdicts,
                s.model->Some_0,
                s.to_ask.len() as int,
            ).push(ActionView::Emit),
        },
    )
}

/// Without a model the queue is listed again after a full list; with one the round
/// goes on.
pub open spec fn carried_out(s: RunView) -> (RunView, NextView) {
    if s.phase == Phase::Closing {
        (RunView { phase: Phase::Finished, ..s }, NextView::Finish)
    } else if s.model is None {
        (RunView { phase: Phase::Listing, ..s }, NextView::List { limit: NO_MODEL_BATCH })
    } else {
        proceeded(s)
    }
}

// ---- The run ----

fn push_outcome(
    out: &mut Vec<Action>,
    asked: Asked,
    ruling: Option<Ruling>,
    model: &String,
)
    ensures
        final(out).deep_view() == old(out).deep_view() + outcome(
            asked.deep_view(),
            ruling.deep_view(),
            model@,
        ),
{
    let ghost before = out.deep_view();
    let ghost expected = outcome(asked.deep_view(), ruling.deep_view(), model@);
    match ruling {
        Some(r) => {
            let store = Action::Store {
                key: asked.key,
                same: r.same,
                confidence: r.confidence,
                model: model.clone(),
            };
            let ghost first = store.deep_view();
            out.push(store);
            assert(out.deep_view() =~= before.push(first));
            let apply = Action::Apply { item: asked.item, ruling: r, via: "adjudicated" };
            let ghost second = apply.deep_view();
            out.push(apply);
            assert(out.deep_view() =~= before.push(first).push(second));
        },
        None => {
            let escalate = Action::Escalate {
                review_id: asked.item.id,
                reason: "escalate_no_verdict",
            };
            let ghost only = escalate.deep_view();
            out.push(escalate);
            assert(out.deep_view() =~= before.push(only));
        },
    }
    assert(out.deep_view() =~= before + expected);
}

impl Run {
    /// Begins a run; without a model it only hands the pairs over.
    pub fn start(model: Option<String>) -> (r: (Run, Next))
        ensures
            r.0@.wf(),
            (r.0@, r.1.deep_view()) == begun(model.deep_view()),
    {
        let ghost given = model.deep_view();
        let (rounds, limit): (usize, i64) = match &model {
            Some(_) => (MAX_ROUNDS - 1, BATCH_SIZE),
            None => (0, NO_MODEL_BATCH),
        };
        let run = Run {
            model,
            rounds,
            phase: Phase::Listing,
            waiting: Vec::new(),
            current: None,
            to_ask: Vec::new(),
        };
        assert(run@.waiting =~= Seq::empty());
        assert(run@.to_ask =~= Seq::empty());
        assert(run@ == begun(given).0);
        (run, Next::List { limit })
    }

    fn proceed(&mut self) -> (r: Next)
        requires
            old(self)@.current is None,
            old(self)@.model is Some,
        ensures
            final(self)@.wf(),
            (final(self)@, r.deep_view()) == proceeded(old(self)@),
    {
        let ghost before = self@;
        if self.waiting.len() > 0 {
            self.phase = Phase::Reading;
            assert(self@.waiting == before.waiting);
            Next::ReadPrecedents { item: self.waiting[0].copy() }
        } else if self.to_ask.len() > 0 {
            let n: usize = self.to_ask.len();
            let mut pairs: Vec<AdjudicationPair> = Vec::new();
            let ghost all = self.to_ask.deep_view();
            assert(pairs_of(all.take(0)) =~= Seq::empty());
            for i in 0..n
                invariant
                    n == self.to_ask@.len(),
                    all == self.to_ask.deep_view(),
                    pairs.deep_view() == pairs_of(all.take(i as int)),
            {
                let ghost sofar = pairs.deep_view();
                let asked: AdjudicationPair = pair(
                    &self.to_ask[i].item,
                    copy_all(&self.to_ask[i].precedents),
                );
                let ghost new = asked.deep_view();
                assert(new == asked_pair(all[i as int].item, all[i as int].precedents));
                pairs.push(asked);
                assert(pairs.deep_view() =~= sofar.push(new));
                assert(pairs_of(all.take(i + 1)) =~= sofar.push(new));
            }
            assert(all.take(n as int) =~= all);
            self.phase = Phase::Asking;
            Next::Ask { pairs }
        } else if self.rounds > 0 {
            self.rounds = self.rounds - 1;
            self.phase = Phase::Listing;
            Next::List { limit: BATCH_SIZE }
        } else {
            self.phase = Phase::Finished;
            Next::Finish
        }
    }

    /// The head of the queue was listed.
    pub fn pending(&mut self, items: Vec<ReviewItem>) -> (r: Next)
        requires
            old(self)@.wf(),
            old(self)@.phase == Phase::Listing,
        ensures
            final(self)@.wf(),
            (final(self)@, r.deep_view()) == listed(old(self)@, items.deep_view()),
    {
        let ghost given = items.deep_view();
        if self.model.is_none() {
            let n: usize = items.len();
            let mut actions: Vec<Action> = Vec::new();
            let ghost over = |x: ItemView|
                ActionView::Escalate { review_id: x.id, reason: "escalate_no_model"@ };
            assert(given.take(0).map_values(over) =~= Seq::empty());
            for i in 0..n
                invariant
                    n == items@.len(),
                    given == items.deep_view(),
                    actions.deep_view() == given.take(i as int).map_values(over),
                    over == (|x: ItemView|
                        ActionView::Escalate { review_id: x.id, reason: "escalate_no_model"@ }),
            {
                let ghost sofar = actions.deep_view();
                let escalate = Action::Escalate {
                    review_id: items[i].id,
                    reason: "escalate_no_model",
                };
                let ghost new = escalate.deep_view();
                actions.push(escalate);
                assert(actions.deep_view() =~= sofar.push(new));
                assert(given.take(i + 1).map_values(over) =~= sofar.push(over(given[i as int])));
            }
            assert(given.take(n as int) =~= given);
            if n < NO_MODEL_BATCH as usize {
                let ghost sofar = actions.deep_view();
                actions.push(Action::Emit);
                assert(actions.deep_view() =~= sofar.push(ActionView::Emit));
                self.phase = Phase::Closing;
                return Next::Act { actions };
            }
            self.phase = Phase::Acting;
            return Next::Act { actions };
        }
        if items.len() == 0 {
            self.phase = Phase::Finished;
            return Next::Finish;
        }
        self.waiting = items;
        self.proceed()
    }

    /// The precedents of the pair were read.
    pub fn precedents(&mut self, p: &Precedents) -> (r: Next)
        requires
            old(self)@.wf(),
            old(self)@.phase == Phase::Reading,
            dated(p.deep_view()),
        ensures
            final(self)@.wf(),
            (final(self)@, r.deep_view()) == read(old(self)@, p.deep_view()),
    {
        let ghost before = self@;
        let precedents: Vec<String> = render_lines(p);
        let item: ReviewItem = self.waiting.remove(0);
        assert(item.deep_view() == before.waiting[0]);
        assert(self.waiting.deep_view() =~= before.waiting.drop_first());
        let key: String = pair_key(&item, &precedents);
        let wanted: String = key.clone();
        self.current = Some(Asked { item, key, precedents });
        self.phase = Phase::LookingUp;
        Next::LookUp { key: wanted }
    }

    /// The key was looked up; a hit is the ruling and its confidence.
    pub fn cached(&mut self, hit: Option<(Option<bool>, Single)>) -> (r: Next)
        requires
            old(self)@.wf(),
            old(self)@.phase == Phase::LookingUp,
        ensures
            final(self)@.wf(),
            (final(self)@, r.deep_view()) == looked_up(old(self)@, hit),
    {
        let ghost before = self@;
        let mut current: Option<Asked> = None;
        std::mem::swap(&mut current, &mut self.current);
        match current {
            Some(asked) => {
                match hit {
                    Some((same, confidence)) => {
                        self.phase = Phase::Acting;
                        let ghost item = asked.item.deep_view();
                        let actions: Vec<Action> = vec![
                            Action::Apply {
                                item: asked.item,
                                ruling: Ruling { same, confidence, why: None },
                                via: "cached",
                            },
                        ];
                        assert(actions.deep_view() =~= seq![
                            ActionView::Apply {
                                item,
                                ruling: RulingView { same, confidence, why: None },
                                via: "cached"@,
                            },
                        ]);
                        Next::Act { actions }
                    },
                    None => {
                        self.to_ask.push(asked);
                        assert(self.to_ask.deep_view() =~= before.to_ask.push(
                            before.current->Some_0,
                        ));
                        self.proceed()
                    },
                }
            },
            None => Next::Finish,
        }
    }

    /// The model has answered.
    pub fn answered(&mut self, verdicts: &Vec<AdjudicationVerdict>) -> (r: Next)
        requires
            old(self)@.wf(),
            old(self)@.phase == Phase::Asking,
        ensures
            final(self)@.wf(),
            (final(self)@, r.deep_view()) == answered(old(self)@, verdicts.deep_view()),
    {
        let ghost before = self@;
        let ghost model = before.model->Some_0;
        let ghost all = before.to_ask;
        let ghost said = verdicts.deep_view();
        let mut actions: Vec<Action> = Vec::new();
        let mut asked: Vec<Asked> = Vec::new();
        std::mem::swap(&mut asked, &mut self.to_ask);
        assert(self.to_ask.deep_view() =~= Seq::empty());
        self.phase = Phase::Acting;
        assert(actions.deep_view() =~= Seq::empty());
        if let Some(name) = &self.model {
            let n: usize = asked.len();
            let mut i: usize = 0;
            for a in it: asked
                invariant
                    it.seq() == asked@,
                    n == asked@.len(),
                    all == asked.deep_view(),
                    i == it.index(),
                    name@ == model,
                    said == verdicts.deep_view(),
                    actions.deep_view() == outcomes(all, said, model, i as int),
            {
                assert(a.deep_view() == all[i as int]);
                let ruling: Option<Ruling> = find_ruling(verdicts, i);
                push_outcome(&mut actions, a, ruling, name);
                i = i + 1;
            }
        }
        let ghost sofar = actions.deep_view();
        actions.push(Action::Emit);
        assert(actions.deep_view() =~= sofar.push(ActionView::Emit));
        Next::Act { actions }
    }

    /// The actions were carried out.
    pub fn acted(&mut self) -> (r: Next)
        requires
            old(self)@.wf(),
            old(self)@.phase == Phase::Acting || old(self)@.phase == Phase::Closing,
        ensures
            final(self)@.wf(),
            (final(self)@, r.deep_view()) == carried_out(old(self)@),
    {
        if self.phase == Phase::Closing {
            self.phase = Phase::Finished;
            return Next::Finish;
        }
        if self.model.is_none() {
            self.phase = Phase::Listing;
            return Next::List { limit: NO_MODEL_BATCH };
        }
        self.proceed()
    }
}

} // verus!
