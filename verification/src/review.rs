//! Pairs of entities that may be the same, and what a model says of them.

use vstd::prelude::*;

use crate::json::{Json, JsonView};
use crate::single::{lemma_size_order, Single, HALF, ONE, ZERO};
use crate::strings::{copy_all, same};

verus! {

/// One entity of a pair.
#[derive(Debug)]
pub struct ReviewSide {
    pub id: u128,
    pub name: String,
    /// Absent where no type was recognised.
    pub type_label: Option<String>,
    pub top_facts: Vec<String>,
}

/// A pair that waits for a decision.
#[derive(Debug)]
pub struct ReviewItem {
    pub id: u128,
    pub left: ReviewSide,
    pub right: ReviewSide,
    /// How alike the two looked; carried into the ledger and never compared.
    pub score: Json,
}

/// What a [`ReviewSide`] holds.
pub struct SideView {
    pub id: u128,
    pub name: Seq<char>,
    pub type_label: Option<Seq<char>>,
    pub top_facts: Seq<Seq<char>>,
}

/// What a [`ReviewItem`] holds.
pub struct ItemView {
    pub id: u128,
    pub left: SideView,
    pub right: SideView,
    pub score: JsonView,
}

impl DeepView for ReviewSide {
    type V = SideView;

    open spec fn deep_view(&self) -> SideView {
        SideView {
            id: self.id,
            name: self.name@,
            type_label: self.type_label.deep_view(),
            top_facts: self.top_facts.deep_view(),
        }
    }
}

impl DeepView for ReviewItem {
    type V = ItemView;

    open spec fn deep_view(&self) -> ItemView {
        ItemView {
            id: self.id,
            left: self.left.deep_view(),
            right: self.right.deep_view(),
            score: self.score.deep_view(),
        }
    }
}

impl ReviewSide {
    pub fn copy(&self) -> (r: ReviewSide)
        ensures
            r.deep_view() == self.deep_view(),
    {
        ReviewSide {
            id: self.id,
            name: self.name.clone(),
            type_label: self.type_label.clone(),
            top_facts: copy_all(&self.top_facts),
        }
    }
}

impl ReviewItem {
    pub fn copy(&self) -> (r: ReviewItem)
        ensures
            r.deep_view() == self.deep_view(),
    {
        ReviewItem {
            id: self.id,
            left: self.left.copy(),
            right: self.right.copy(),
            score: self.score.copy(),
        }
    }
}

// ---- What the model is asked ----

/// One side as the model sees it.
#[derive(Debug)]
pub struct AdjudicationSide {
    pub name: String,
    pub type_label: String,
    pub facts: Vec<String>,
}

/// One pair as the model sees it, with what people decided before.
#[derive(Debug)]
pub struct AdjudicationPair {
    pub left: AdjudicationSide,
    pub right: AdjudicationSide,
    pub precedents: Vec<String>,
}

/// What an [`AdjudicationSide`] holds.
pub struct AskedSideView {
    pub name: Seq<char>,
    pub type_label: Seq<char>,
    pub facts: Seq<Seq<char>>,
}

/// What an [`AdjudicationPair`] holds.
pub struct AskedPairView {
    pub left: AskedSideView,
    pub right: AskedSideView,
    pub precedents: Seq<Seq<char>>,
}

impl DeepView for AdjudicationSide {
    type V = AskedSideView;

    open spec fn deep_view(&self) -> AskedSideView {
        AskedSideView {
            name: self.name@,
            type_label: self.type_label@,
            facts: self.facts.deep_view(),
        }
    }
}

impl DeepView for AdjudicationPair {
    type V = AskedPairView;

    open spec fn deep_view(&self) -> AskedPairView {
        AskedPairView {
            left: self.left.deep_view(),
            right: self.right.deep_view(),
            precedents: self.precedents.deep_view(),
        }
    }
}

/// The label of a side; a side without a type is still asked about.
pub open spec fn label_of(s: SideView) -> Seq<char> {
    match s.type_label {
        Some(l) => l,
        None => "untyped"@,
    }
}

pub open spec fn asked_side(s: SideView) -> AskedSideView {
    AskedSideView { name: s.name, type_label: label_of(s), facts: s.top_facts }
}

pub open spec fn asked_pair(item: ItemView, precedents: Seq<Seq<char>>) -> AskedPairView {
    AskedPairView {
        left: asked_side(item.left),
        right: asked_side(item.right),
        precedents,
    }
}

pub fn type_label_or_untyped(s: &ReviewSide) -> (r: String)
    ensures
        r@ == label_of(s.deep_view()),
{
    match &s.type_label {
        Some(l) => l.clone(),
        None => "untyped".to_owned(),
    }
}

pub fn side(s: &ReviewSide) -> (r: AdjudicationSide)
    ensures
        r.deep_view() == asked_side(s.deep_view()),
{
    AdjudicationSide {
        name: s.name.clone(),
        type_label: type_label_or_untyped(s),
        facts: copy_all(&s.top_facts),
    }
}

pub fn pair(item: &ReviewItem, precedents: Vec<String>) -> (r: AdjudicationPair)
    ensures
        r.deep_view() == asked_pair(item.deep_view(), precedents.deep_view()),
{
    AdjudicationPair { left: side(&item.left), right: side(&item.right), precedents }
}

// ---- What the model answers ----

/// The answer for the pair with the number `i` in the question.
#[derive(Debug)]
pub struct AdjudicationVerdict {
    pub i: usize,
    /// `same`, `different`, or anything else where the model is unsure.
    pub verdict: String,
    pub confidence: Option<Single>,
    pub why: Option<String>,
}

/// What an [`AdjudicationVerdict`] holds.
pub struct VerdictView {
    pub i: usize,
    pub verdict: Seq<char>,
    pub confidence: Option<Single>,
    pub why: Option<Seq<char>>,
}

impl DeepView for AdjudicationVerdict {
    type V = VerdictView;

    open spec fn deep_view(&self) -> VerdictView {
        VerdictView {
            i: self.i,
            verdict: self.verdict@,
            confidence: self.confidence,
            why: self.why.deep_view(),
        }
    }
}

/// A verdict as the library reads it: `same` is absent where the model is
/// unsure.
#[derive(Debug)]
pub struct Ruling {
    pub same: Option<bool>,
    pub confidence: Single,
    pub why: Option<String>,
}

/// What a [`Ruling`] holds.
pub struct RulingView {
    pub same: Option<bool>,
    pub confidence: Single,
    pub why: Option<Seq<char>>,
}

impl DeepView for Ruling {
    type V = RulingView;

    open spec fn deep_view(&self) -> RulingView {
        RulingView {
            same: self.same,
            confidence: self.confidence,
            why: self.why.deep_view(),
        }
    }
}

pub open spec fn word_says(verdict: Seq<char>) -> Option<bool> {
    if verdict == "same"@ {
        Some(true)
    } else if verdict == "different"@ {
        Some(false)
    } else {
        None
    }
}

/// A confidence that was not given counts as one half; one that was given is
/// taken into the range from zero to one.
pub open spec fn stated_confidence(c: Option<Single>) -> Single {
    match c {
        Some(x) => x.clamped(),
        None => Single { bits: HALF },
    }
}

pub open spec fn read_as(v: VerdictView) -> RulingView {
    RulingView {
        same: word_says(v.verdict),
        confidence: stated_confidence(v.confidence),
        why: v.why,
    }
}

/// The verdict on the pair with this number; of several, the last.
pub open spec fn verdict_on(verdicts: Seq<VerdictView>, i: int) -> Option<VerdictView>
    decreases verdicts.len(),
{
    if verdicts.len() == 0 {
        None
    } else if verdicts.last().i == i {
        Some(verdicts.last())
    } else {
        verdict_on(verdicts.drop_last(), i)
    }
}

/// The ruling on the pair with this number, where the model gave one.
pub open spec fn ruling_on(verdicts: Seq<VerdictView>, i: int) -> Option<RulingView> {
    match verdict_on(verdicts, i) {
        Some(v) => Some(read_as(v)),
        None => None,
    }
}

pub fn read_verdict(v: &AdjudicationVerdict) -> (r: Ruling)
    ensures
        r.deep_view() == read_as(v.deep_view()),
{
    let said: Option<bool> = if same(v.verdict.as_str(), "same") {
        Some(true)
    } else if same(v.verdict.as_str(), "different") {
        Some(false)
    } else {
        None
    };
    let half = Single { bits: HALF };
    let confidence = match v.confidence {
        Some(c) => c.clamp_unit(),
        None => half,
    };
    Ruling { same: said, confidence, why: v.why.clone() }
}

pub fn find_ruling(verdicts: &Vec<AdjudicationVerdict>, i: usize) -> (r: Option<Ruling>)
    ensures
        r.deep_view() == ruling_on(verdicts.deep_view(), i as int),
{
    let ghost all = verdicts.deep_view();
    let mut k: usize = verdicts.len();
    assert(all.take(k as int) =~= all);
    while k > 0
        invariant
            all == verdicts.deep_view(),
            k <= verdicts@.len(),
            verdict_on(all, i as int) == verdict_on(all.take(k as int), i as int),
        decreases k,
    {
        k = k - 1;
        assert(all.take(k + 1).last() == verdicts@[k as int].deep_view());
        assert(all.take(k + 1).drop_last() =~= all.take(k as int));
        if verdicts[k].i == i {
            return Some(read_verdict(&verdicts[k]));
        }
    }
    None
}

// ---- Laws ----

/// A pair has a verdict exactly where the model gave one for its number.
pub proof fn law_every_verdict_is_heard(verdicts: Seq<VerdictView>, i: int)
    ensures
        verdict_on(verdicts, i) is Some <==> exists|k: int|
            0 <= k < verdicts.len() && (#[trigger] verdicts[k]).i == i,
        verdict_on(verdicts, i) matches Some(v) ==> v.i == i && verdicts.contains(v),
    decreases verdicts.len(),
{
    if verdicts.len() > 0 {
        let rest = verdicts.drop_last();
        law_every_verdict_is_heard(rest, i);
        assert(verdicts[verdicts.len() - 1] == verdicts.last());
        if verdicts.last().i != i {
            if verdict_on(rest, i) is Some {
                let v = verdict_on(rest, i)->Some_0;
                let k = rest.index_of(v);
                assert(verdicts[k] == v);
            }
            if exists|k: int| 0 <= k < verdicts.len() && (#[trigger] verdicts[k]).i == i {
                let k = choose|k: int|
                    0 <= k < verdicts.len() && (#[trigger] verdicts[k]).i == i;
                assert(rest[k].i == i);
            }
        }
    }
}

/// A confidence that is a number at all lies between zero and one.
pub proof fn law_confidence_lies_between_zero_and_one(c: Option<Single>)
    requires
        c matches Some(x) ==> !x.is_nan(),
    ensures
        stated_confidence(c).reaches(Single { bits: ZERO }),
        (Single { bits: ONE }).reaches(stated_confidence(c)),
{
    lemma_size_order(HALF as int, ONE as int);
    lemma_size_order(ZERO as int, HALF as int);
    lemma_size_order(ZERO as int, ONE as int);
}

} // verus!
