//! Laws of confidences, and of what a question holds and an answer means.

use vstd::arithmetic::power2::{lemma_pow2_pos, lemma_pow2_unfold, pow2};
use vstd::prelude::*;
use vstd::string::*;

use crate::review::{
    asked_pair, label_of, ruling_on, stated_confidence, verdict_on, ItemView, RulingView, SideView,
    VerdictView,
};
use crate::single::{magnitude, size, Single};

verus! {

// ---- Numbers ----

/// Up to the second binade the pattern counts the units; from there on the next
/// exponent doubles the number. The sign bit turns it round.
pub proof fn law_a_pattern_stands_for_its_number(bits: u32)
    requires
        bits < 0x7f80_0000,
    ensures
        bits < 0x100_0000 ==> (Single { bits }).units() == bits,
        0x80_0000 <= bits ==> (Single { bits: (bits + 0x80_0000) as u32 }).units() == 2 * (Single {
            bits,
        }).units(),
        (Single { bits: (bits + 0x8000_0000) as u32 }).units() == -(Single { bits }).units(),
        !(Single { bits }).is_nan(),
{
    let m = bits as int;
    let exponent = m / 0x80_0000;
    let fraction = m % 0x80_0000;
    assert(pow2(0) == 1) by {
        vstd::arithmetic::power2::lemma2_to64();
    }
    if bits < 0x80_0000 {
        assert(exponent == 0);
        assert(fraction == m);
    } else if bits < 0x100_0000 {
        assert(exponent == 1);
        assert(fraction == m - 0x80_0000);
        assert((0x80_0000 + fraction) * pow2(0) == m);
    }
    if 0x80_0000 <= bits {
        let next = m + 0x80_0000;
        assert(next / 0x80_0000 == exponent + 1);
        assert(next % 0x80_0000 == fraction);
        lemma_pow2_unfold(exponent as nat);
        let p = pow2((exponent - 1) as nat) as int;
        assert(pow2(exponent as nat) == 2 * p);
        assert((0x80_0000 + fraction) * (2 * p) == 2 * ((0x80_0000 + fraction) * p))
            by (nonlinear_arith);
    }
}

/// A number reaches another exactly where it is not the smaller one; a NaN reaches
/// nothing and is reached by nothing.
pub proof fn law_reaching_is_the_order_of_numbers(a: Single, b: Single)
    ensures
        a.is_nan() || b.is_nan() ==> !a.reaches(b),
        !a.is_nan() && !b.is_nan() ==> (a.reaches(b) <==> a.units() >= b.units()),
        a.is_nan() <==> magnitude(a.bits) > 0x7f80_0000,
{
}

/// The patterns of one half and one are what they say, and those of 0.75, 0.8 and
/// 0.85 are the nearest numbers to these.
pub proof fn law_the_bars_are_what_they_say()
    ensures
        ({
            let one = (Single { bits: 0x3f80_0000 }).units();
            let ulp = (Single { bits: 0x3f40_0001 }).units() - (Single { bits: 0x3f40_0000 }).units();
            let b75 = (Single { bits: 0x3f40_0000 }).units();
            let b80 = (Single { bits: 0x3f4c_cccd }).units();
            let b85 = (Single { bits: 0x3f59_999a }).units();
            &&& ulp > 0
            &&& 2 * (Single { bits: 0x3f00_0000 }).units() == one
            &&& 4 * b75 == 3 * one
            &&& -5 * ulp <= 2 * (5 * b80 - 4 * one) <= 5 * ulp
            &&& -20 * ulp <= 2 * (20 * b85 - 17 * one) <= 20 * ulp
            &&& b75 < b80 < b85 < one
        }),
{
    let p = pow2(125) as int;
    lemma_pow2_pos(125);
    lemma_pow2_unfold(126);
    assert(size(0x3f80_0000) == 0x80_0000 * pow2(126)) by {
        assert(0x3f80_0000int / 0x80_0000 == 127);
        assert(0x3f80_0000int % 0x80_0000 == 0);
    }
    assert(size(0x3f00_0000) == 0x80_0000 * p) by {
        assert(0x3f00_0000int / 0x80_0000 == 126);
        assert(0x3f00_0000int % 0x80_0000 == 0);
    }
    assert(size(0x3f40_0000) == 0xc0_0000 * p) by {
        assert(0x3f40_0000int / 0x80_0000 == 126);
    }
    assert(size(0x3f40_0001) == 0xc0_0001 * p) by {
        assert(0x3f40_0001int / 0x80_0000 == 126);
    }
    assert(size(0x3f4c_cccd) == 0xcc_cccd * p) by {
        assert(0x3f4c_cccdint / 0x80_0000 == 126);
    }
    assert(size(0x3f59_999a) == 0xd9_999a * p) by {
        assert(0x3f59_999aint / 0x80_0000 == 126);
    }
    let one = (Single { bits: 0x3f80_0000 }).units();
    assert(one == 0x100_0000 * p);
    assert((Single { bits: 0x3f40_0000 }).units() == 0xc0_0000 * p);
    assert((Single { bits: 0x3f40_0001 }).units() == 0xc0_0001 * p);
    assert((Single { bits: 0x3f4c_cccd }).units() == 0xcc_cccd * p);
    assert((Single { bits: 0x3f59_999a }).units() == 0xd9_999a * p);
    assert((Single { bits: 0x3f00_0000 }).units() == 0x80_0000 * p);
}

/// A confidence as it counts: one half where none was stated; otherwise the stated
/// one where it lies between zero and one, or is no number, and else the nearer end.
pub open spec fn counts_as(stated: Option<Single>, c: Single) -> bool {
    let one = Single { bits: 0x3f80_0000 };
    match stated {
        None => c == Single { bits: 0x3f00_0000 },
        Some(x) => {
            &&& x.is_nan() || 0 <= x.units() <= one.units() ==> c == x
            &&& !x.is_nan() && x.units() < 0 ==> c == Single { bits: 0 }
            &&& !x.is_nan() && x.units() > one.units() ==> c == one
        },
    }
}

/// Every confidence counts so.
pub proof fn law_a_confidence_counts_within_its_range(stated: Option<Single>)
    ensures
        counts_as(stated, stated_confidence(stated)),
{
    assert((Single { bits: 0u32 }).units() == 0);
}

// ---- Answers ----

/// The ruling says what the verdict says: `same` and `different` decide, any other
/// word does not; the reason is that of the verdict, and the confidence its own.
pub open spec fn says_what(v: VerdictView, r: RulingView) -> bool {
    &&& r.same == Some(true) <==> v.verdict == "same"@
    &&& r.same == Some(false) <==> v.verdict == "different"@
    &&& counts_as(v.confidence, r.confidence)
    &&& r.why == v.why
}

/// The verdict at `m` is the last on the pair with the number `i`.
pub open spec fn is_last_on(verdicts: Seq<VerdictView>, i: int, m: int) -> bool {
    &&& 0 <= m < verdicts.len()
    &&& verdicts[m].i == i
    &&& forall|n: int| m < n < verdicts.len() ==> (#[trigger] verdicts[n]).i != i
}

/// The last verdict on a pair rules it.
pub proof fn law_the_last_verdict_rules(verdicts: Seq<VerdictView>, i: int, m: int)
    requires
        is_last_on(verdicts, i, m),
    ensures
        ruling_on(verdicts, i) matches Some(r) && says_what(verdicts[m], r),
{
    lemma_last_is_found(verdicts, i, m);
    law_a_confidence_counts_within_its_range(verdicts[m].confidence);
    reveal_strlit("same");
    reveal_strlit("different");
    assert("same"@.len() != "different"@.len());
}

proof fn lemma_last_is_found(verdicts: Seq<VerdictView>, i: int, m: int)
    requires
        is_last_on(verdicts, i, m),
    ensures
        verdict_on(verdicts, i) == Some(verdicts[m]),
    decreases verdicts.len(),
{
    if m < verdicts.len() - 1 {
        let rest = verdicts.drop_last();
        assert(verdicts[verdicts.len() - 1].i != i);
        assert forall|n: int| m < n < rest.len() implies (#[trigger] rest[n]).i != i by {
            assert(rest[n] == verdicts[n]);
        }
        lemma_last_is_found(rest, i, m);
    }
}

/// A pair whose number no verdict has is not ruled.
pub proof fn law_a_pair_that_was_passed_over_is_not_ruled(verdicts: Seq<VerdictView>, i: int)
    requires
        forall|n: int| 0 <= n < verdicts.len() ==> (#[trigger] verdicts[n]).i != i,
    ensures
        ruling_on(verdicts, i) is None,
    decreases verdicts.len(),
{
    if verdicts.len() > 0 {
        let rest = verdicts.drop_last();
        assert(verdicts[verdicts.len() - 1].i != i);
        assert forall|n: int| 0 <= n < rest.len() implies (#[trigger] rest[n]).i != i by {
            assert(rest[n] == verdicts[n]);
        }
        law_a_pair_that_was_passed_over_is_not_ruled(rest, i);
    }
}

/// Of the verdicts on a pair, where there are any, one is the last.
pub proof fn lemma_some_verdict_is_last(verdicts: Seq<VerdictView>, i: int, n: int) -> (m: int)
    requires
        0 <= n < verdicts.len(),
        verdicts[n].i == i,
    ensures
        is_last_on(verdicts, i, m),
    decreases verdicts.len() - n,
{
    if exists|k: int| n < k < verdicts.len() && (#[trigger] verdicts[k]).i == i {
        let k = choose|k: int| n < k < verdicts.len() && (#[trigger] verdicts[k]).i == i;
        lemma_some_verdict_is_last(verdicts, i, k)
    } else {
        n
    }
}

// ---- Questions ----

/// A question shows of each side its own name, its facts and its type, or that it
/// has none, with the precedents; no side is taken for the other.
pub proof fn law_a_question_shows_both_sides(item: ItemView, precedents: Seq<Seq<char>>)
    ensures
        ({
            let q = asked_pair(item, precedents);
            &&& q.left.name == item.left.name && q.right.name == item.right.name
            &&& q.left.facts == item.left.top_facts && q.right.facts == item.right.top_facts
            &&& item.left.type_label matches Some(l) ==> q.left.type_label == l
            &&& item.right.type_label matches Some(l) ==> q.right.type_label == l
            &&& item.left.type_label is None ==> q.left.type_label == "untyped"@
            &&& item.right.type_label is None ==> q.right.type_label == "untyped"@
            &&& q.precedents == precedents
        }),
{
}

/// A side is called by its type, or untyped.
pub proof fn law_a_side_is_labelled_by_its_type(s: SideView)
    ensures
        s.type_label matches Some(l) ==> label_of(s) == l,
        s.type_label is None ==> label_of(s) == "untyped"@,
{
}

} // verus!
