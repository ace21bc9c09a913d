//! Laws of what the governor may do by itself, and of the precedents it reads.

use vstd::prelude::*;

use crate::governance::{
    agrees, entry, family_query, gated, no_precedents, objects, once, people_settled, recorded,
    search_query, Family, Gate, PrecedentsView, AUTO_CONF, BY_A_PERSON, COLUMNS, SUPPORTED_CONF,
};
use crate::single::{lemma_size_order, Single};
use crate::strings::{holds, occurs_at};

verus! {

/// A model that is unsure never acts.
pub proof fn law_unsure_is_proposed(conf: Single, types_conflict: bool, p: PrecedentsView)
    ensures
        gated(None, conf, types_conflict, p) == Gate::Propose,
{
}

/// What is carried out at one confidence is carried out at any higher one.
pub proof fn law_gate_is_monotone_in_confidence(
    same: Option<bool>,
    low: Single,
    high: Single,
    types_conflict: bool,
    p: PrecedentsView,
)
    requires
        high.reaches(low),
        gated(same, low, types_conflict, p) == Gate::Apply,
    ensures
        gated(same, high, types_conflict, p) == Gate::Apply,
{
}

/// A revert of a merge that touched one of the names leaves the pair to people,
/// whatever the model says.
pub proof fn law_a_revert_blocks(
    same: Option<bool>,
    conf: Single,
    types_conflict: bool,
    p: PrecedentsView,
)
    requires
        p.reverts.len() > 0,
    ensures
        gated(same, conf, types_conflict, p) == Gate::Propose,
{
}

/// The governor never overrules a decision of people on the same pair: where one
/// of them went the other way, it only proposes.
pub proof fn law_people_are_not_overruled(
    same: bool,
    conf: Single,
    types_conflict: bool,
    p: PrecedentsView,
)
    requires
        once(p.same_pair, !same),
    ensures
        gated(Some(same), conf, types_conflict, p) == Gate::Propose,
{
}

/// Entities of conflicting types are never merged; keeping them apart does not
/// depend on their types.
pub proof fn law_conflicting_types_are_not_merged(conf: Single, p: PrecedentsView)
    ensures
        gated(Some(true), conf, true, p) == Gate::Propose,
        gated(Some(false), conf, true, p) == gated(Some(false), conf, false, p),
{
}

/// The bar with support lies below the one without.
pub proof fn law_support_lowers_the_bar()
    ensures
        (Single { bits: AUTO_CONF }).reaches(Single { bits: SUPPORTED_CONF }),
        !(Single { bits: SUPPORTED_CONF }).reaches(Single { bits: AUTO_CONF }),
{
    lemma_size_order(AUTO_CONF as int, SUPPORTED_CONF as int);
}

/// Without an objection, history only makes the governor act more readily: what
/// it would do with no history at all, it does with any.
pub proof fn law_history_without_objection_only_helps(
    same: bool,
    conf: Single,
    types_conflict: bool,
    p: PrecedentsView,
)
    requires
        !objects(p, same),
        gated(Some(same), conf, types_conflict, no_precedents()) == Gate::Apply,
    ensures
        gated(Some(same), conf, types_conflict, p) == Gate::Apply,
{
    law_support_lowers_the_bar();
}

/// Once people have decided a pair of names, and always the same way, the
/// governor follows them on the same names at the lower bar, unless a merge was
/// reverted or the types conflict.
pub proof fn law_the_governor_follows_people(
    same: bool,
    conf: Single,
    types_conflict: bool,
    p: PrecedentsView,
)
    requires
        once(p.same_pair, same),
        !objects(p, same),
        !(same && types_conflict),
        conf.reaches(Single { bits: SUPPORTED_CONF }),
    ensures
        gated(Some(same), conf, types_conflict, p) == Gate::Apply,
{
}

/// Below the lower bar nothing is carried out, whatever history says.
pub proof fn law_low_confidence_is_proposed(
    same: Option<bool>,
    conf: Single,
    types_conflict: bool,
    p: PrecedentsView,
)
    requires
        !conf.reaches(Single { bits: SUPPORTED_CONF }),
    ensures
        gated(same, conf, types_conflict, p) == Gate::Propose,
{
    law_support_lowers_the_bar();
}

/// What people settled by their decisions on the names is supported by history,
/// and the opposite is never carried out.
pub proof fn law_settled_pairs_are_safe(
    left_name: Seq<char>,
    right_name: Seq<char>,
    p: PrecedentsView,
    merged: bool,
    conf: Single,
    types_conflict: bool,
)
    requires
        people_settled(left_name, right_name, p, None) == Some(merged),
    ensures
        agrees(p, merged),
        !objects(p, merged),
        gated(Some(!merged), conf, types_conflict, p) == Gate::Propose,
{
    assert(p.same_pair[0].merged() == merged);
    assert(once(p.same_pair, merged));
}

/// A decision of people on the very pair of entities stands unless a merge of
/// one of the names was reverted, and does not depend on the names.
pub proof fn law_a_decided_pair_stands(
    left_name: Seq<char>,
    right_name: Seq<char>,
    p: PrecedentsView,
    merged: bool,
)
    ensures
        people_settled(left_name, right_name, p, Some(merged)) == if p.reverts.len() == 0 {
            Some(merged)
        } else {
            None
        },
{
}

/// It does not matter which of the two names stands on the left.
pub proof fn law_settling_ignores_the_sides(
    left_name: Seq<char>,
    right_name: Seq<char>,
    p: PrecedentsView,
    prior: Option<bool>,
)
    ensures
        people_settled(left_name, right_name, p, prior) == people_settled(
            right_name,
            left_name,
            p,
            prior,
        ),
{
}

/// The entries that count as precedents, of whatever family, and those that a
/// search of the ledger finds, are those that a person signed.
pub proof fn law_only_people_set_precedents(family: Family)
    ensures
        holds(family_query(family), BY_A_PERSON@),
        holds(search_query(), BY_A_PERSON@),
{
    let head = "SELECT "@ + COLUMNS@ + " FROM audit_events WHERE kb_id = $1"@;
    let at = head.len() as int;
    let n = BY_A_PERSON@.len() as int;
    assert(family_query(family).subrange(at, at + n) =~= BY_A_PERSON@);
    assert(occurs_at(family_query(family), BY_A_PERSON@, at));
    assert(search_query().subrange(at, at + n) =~= BY_A_PERSON@);
    assert(occurs_at(search_query(), BY_A_PERSON@, at));
}

/// The record has one entry for each precedent, family after family, and one
/// more for the habit.
pub proof fn law_every_precedent_is_recorded(p: PrecedentsView)
    ensures
        recorded(p)->Array_0.len() == p.same_pair.len() + p.same_name.len() + p.reverts.len() + (
        if p.type_pair is Some {
            1int
        } else {
            0int
        }),
        forall|i: int|
            0 <= i < p.same_pair.len() ==> recorded(p)->Array_0[i] == entry(
                Family::SamePair,
                #[trigger] p.same_pair[i],
            ),
        forall|i: int|
            0 <= i < p.same_name.len() ==> recorded(p)->Array_0[p.same_pair.len() + i] == entry(
                Family::SameName,
                #[trigger] p.same_name[i],
            ),
        forall|i: int|
            0 <= i < p.reverts.len() ==> recorded(p)->Array_0[p.same_pair.len()
                + p.same_name.len() + i] == entry(Family::Reverts, #[trigger] p.reverts[i]),
{
}

} // verus!
