//! Laws of what history says of a pair: when it supports a ruling, when it stands
//! against one, what people settled by it, and how it is put into words and kept.

use vstd::prelude::*;
use vstd::string::*;

use crate::governance::{
    agrees, entry, gated, habit, habit_entries, habit_line, line, lines, objects, once,
    people_settled, recorded, type_in, typed_pair, Family, Gate, PrecedentView, PrecedentsView,
    TypePairStats,
};
use crate::ids::id_text;
use crate::json::{has_member, has_members, JsonView};
use crate::moment::{day_text, rfc3339_text};
use crate::review::ItemView;
use crate::single::{lemma_size_order, Single};
use crate::strings::{lowercase, signed_decimal};

verus! {

/// The decision merged the two: in a review or by hand.
pub open spec fn joined_them(x: PrecedentView) -> bool {
    x.action == "review.merge"@ || x.action == "merge.manual"@
}

/// One of the decisions joined the two, or one left them apart.
pub open spec fn went(list: Seq<PrecedentView>, together: bool) -> bool {
    exists|i: int| 0 <= i < list.len() && joined_them(#[trigger] list[i]) == together
}

/// A confidence of 0.85 or more.
pub open spec fn sure_enough(conf: Single) -> bool {
    conf.reaches(Single { bits: 0x3f59_999a })
}

/// A confidence of 0.75 or more.
pub open spec fn sure_with_support(conf: Single) -> bool {
    conf.reaches(Single { bits: 0x3f40_0000 })
}

proof fn lemma_went(list: Seq<PrecedentView>, together: bool)
    ensures
        once(list, together) == went(list, together),
{
    if once(list, together) {
        let i = choose|i: int| 0 <= i < list.len() && (#[trigger] list[i]).merged() == together;
        assert(joined_them(list[i]) == together);
    }
    if went(list, together) {
        let i = choose|i: int|
            0 <= i < list.len() && joined_them(#[trigger] list[i]) == together;
        assert(list[i].merged() == together);
    }
}

/// A merge in a review and one by hand joined the two; a pair that was kept apart
/// and a merge that was taken back did not.
pub proof fn law_what_joins_is_told_from_the_rest(x: PrecedentView)
    ensures
        x.merged() == joined_them(x),
        x.action == "review.keep"@ || x.action == "merge.revert"@ ==> !x.merged(),
{
    reveal_strlit("review.keep");
    reveal_strlit("merge.revert");
    reveal_strlit("review.merge");
    reveal_strlit("merge.manual");
    assert("review.keep"@.len() == 11);
    assert("merge.revert"@.len() == 12);
    assert("merge.revert"@[6] == 'r');
    assert("merge.manual"@[6] == 'm');
    assert("review.merge"@[0] == 'r');
    assert("merge.revert"@[0] == 'm');
}

// ---- Support ----

/// Where people kept more pairs of the two types apart than they merged, and there
/// is no decision on the pair or on one of its names, a ruling of `same` below 0.85
/// is only proposed; and so is one of `different` where they merged no fewer than
/// they kept apart.
pub proof fn law_the_other_habit_gives_no_support(
    conf: Single,
    types_conflict: bool,
    p: PrecedentsView,
)
    requires
        p.same_pair.len() == 0,
        p.same_name.len() == 0,
        p.type_pair is Some,
        !sure_enough(conf),
    ensures
        p.type_pair->Some_0.kept > p.type_pair->Some_0.merged ==> gated(
            Some(true),
            conf,
            types_conflict,
            p,
        ) == Gate::Propose,
        p.type_pair->Some_0.kept <= p.type_pair->Some_0.merged ==> gated(
            Some(false),
            conf,
            types_conflict,
            p,
        ) == Gate::Propose,
{
}

/// The habit for a pair of types never supports both: with no decision on the pair
/// or on its names, no confidence below 0.85 carries out the one ruling and the
/// other.
pub proof fn law_a_habit_supports_one_ruling(
    t: TypePairStats,
    conf: Single,
    types_conflict: bool,
    p: PrecedentsView,
)
    requires
        p.same_pair.len() == 0,
        p.same_name.len() == 0,
    ensures
        !(habit(t, true) && habit(t, false)),
        !(agrees(p, true) && agrees(p, false)),
        !sure_enough(conf) ==> !(gated(Some(true), conf, types_conflict, p) == Gate::Apply
            && gated(Some(false), conf, types_conflict, p) == Gate::Apply),
{
}

/// Fewer than five decisions are no habit, and one merge of such a pair that was
/// reverted ends the habit of merging.
pub proof fn law_a_habit_needs_decisions_that_stood(
    same: bool,
    conf: Single,
    types_conflict: bool,
    p: PrecedentsView,
)
    requires
        p.same_pair.len() == 0,
        p.same_name.len() == 0,
        p.type_pair matches Some(t) && (t.merged + t.kept < 5 || same && t.reverted != 0),
        !sure_enough(conf),
    ensures
        gated(Some(same), conf, types_conflict, p) == Gate::Propose,
{
}

/// Without any support the bar is 0.85: no decision on the pair went this way, on
/// its names there is none or one that went the other way, and the types have no
/// such habit.
pub proof fn law_without_support_the_bar_is_the_higher(
    same: bool,
    conf: Single,
    types_conflict: bool,
    p: PrecedentsView,
)
    requires
        !went(p.same_pair, same),
        p.same_name.len() == 0 || went(p.same_name, !same),
        p.type_pair matches Some(t) ==> t.merged + t.kept < 5 || (if same {
            t.kept > t.merged || t.reverted != 0
        } else {
            t.merged >= t.kept
        }),
        !sure_enough(conf),
    ensures
        gated(Some(same), conf, types_conflict, p) == Gate::Propose,
{
    lemma_went(p.same_pair, same);
    lemma_went(p.same_name, !same);
}

/// Nothing stands against the ruling: no merge of one of the names was reverted, no
/// decision on the pair went the other way, and no conflict of types forbids it.
pub open spec fn unopposed(same: bool, types_conflict: bool, p: PrecedentsView) -> bool {
    &&& p.reverts.len() == 0
    &&& !went(p.same_pair, !same)
    &&& !(same && types_conflict)
}

/// A ruling that nothing stands against is carried out from 0.85 on; and from 0.75
/// on where people decided the pair so, or decided every pair with one of the names
/// so, or at least five pairs of the types mostly so, with no merge reverted where
/// it is to be merged.
pub proof fn law_support_is_enough_for_the_lower_bar(
    same: bool,
    conf: Single,
    types_conflict: bool,
    p: PrecedentsView,
)
    requires
        unopposed(same, types_conflict, p),
    ensures
        sure_enough(conf) ==> gated(Some(same), conf, types_conflict, p) == Gate::Apply,
        sure_with_support(conf) && went(p.same_pair, same) ==> gated(
            Some(same),
            conf,
            types_conflict,
            p,
        ) == Gate::Apply,
        sure_with_support(conf) && p.same_name.len() > 0 && !went(p.same_name, !same) ==> gated(
            Some(same),
            conf,
            types_conflict,
            p,
        ) == Gate::Apply,
        sure_with_support(conf) && (p.type_pair matches Some(t) && t.merged + t.kept >= 5 && (
        if same {
            t.merged >= t.kept && t.reverted == 0
        } else {
            t.kept > t.merged
        })) ==> gated(Some(same), conf, types_conflict, p) == Gate::Apply,
{
    lemma_went(p.same_pair, same);
    lemma_went(p.same_pair, !same);
    lemma_went(p.same_name, !same);
    lemma_size_order(0x3f59_999a, 0x3f40_0000);
}

/// A ruling that something stands against is never carried out; nor is one below
/// 0.75, nor one that does not say which.
pub proof fn law_what_is_opposed_is_proposed(
    same: Option<bool>,
    conf: Single,
    types_conflict: bool,
    p: PrecedentsView,
)
    requires
        same matches Some(s) ==> !unopposed(s, types_conflict, p) || !sure_with_support(conf),
    ensures
        gated(same, conf, types_conflict, p) == Gate::Propose,
{
    lemma_size_order(0x3f59_999a, 0x3f40_0000);
    if let Some(s) = same {
        lemma_went(p.same_pair, !s);
        assert(objects(p, s) == (p.reverts.len() > 0 || went(p.same_pair, !s)));
    }
}

// ---- What people settled ----

/// A decision on the very pair of entities settles it, and a revert unsettles it.
/// Otherwise, of two entities whose names differ by more than their case, the
/// decisions on the names settle what all of them say, and nothing where there are
/// none or they disagree.
pub proof fn law_people_settle_what_they_agree_on(
    left_name: Seq<char>,
    right_name: Seq<char>,
    p: PrecedentsView,
    prior: Option<bool>,
    merged: bool,
)
    ensures
        p.reverts.len() > 0 ==> people_settled(left_name, right_name, p, prior) is None,
        p.reverts.len() == 0 && prior is Some ==> people_settled(left_name, right_name, p, prior)
            == prior,
        prior is None && lowercase(left_name) == lowercase(right_name) ==> people_settled(
            left_name,
            right_name,
            p,
            prior,
        ) is None,
        prior is None && lowercase(left_name) != lowercase(right_name) && p.reverts.len() == 0 ==> (
        people_settled(left_name, right_name, p, prior) == Some(merged) <==> p.same_pair.len() > 0
            && !went(p.same_pair, !merged)),
{
    lemma_went(p.same_pair, !merged);
    lemma_went(p.same_pair, merged);
    if p.same_pair.len() > 0 {
        let first = p.same_pair[0];
        assert(once(p.same_pair, first.merged()));
    }
}

// ---- In words ----

/// What was done, in words.
pub open spec fn done_in_words(x: PrecedentView) -> Seq<char> {
    if joined_them(x) {
        "merged by a person on "@
    } else {
        "kept apart by a person on "@
    }
}

/// A line says what was done to which names, and on which day.
pub proof fn law_a_line_says_what_was_done(x: PrecedentView)
    ensures
        line(Family::SamePair, x) == "this same pair was "@ + done_in_words(x) + day_text(
            x.at.secs,
            x.at.nanos,
        ),
        line(Family::SameName, x) == "\""@ + x.left + "\" against \""@ + x.right + "\" was "@
            + done_in_words(x) + day_text(x.at.secs, x.at.nanos),
        line(Family::Reverts, x) == "a merge of \""@ + x.left + "\" into \""@ + x.right
            + "\" was reverted by a person on "@ + day_text(x.at.secs, x.at.nanos),
{
    reveal_strlit("merged");
    reveal_strlit("kept apart");
    reveal_strlit(" by a person on ");
    reveal_strlit("merged by a person on ");
    reveal_strlit("kept apart by a person on ");
    assert("merged"@ + " by a person on "@ =~= "merged by a person on "@);
    assert("kept apart"@ + " by a person on "@ =~= "kept apart by a person on "@);
    let day = day_text(x.at.secs, x.at.nanos);
    assert(line(Family::SamePair, x) =~= "this same pair was "@ + done_in_words(x) + day);
    assert(line(Family::SameName, x) =~= "\""@ + x.left + "\" against \""@ + x.right + "\" was "@
        + done_in_words(x) + day);
}

/// The lines come family by family: the pair, the names, the habit of the types
/// where people ever decided such a pair, and the reverts; one for each decision.
pub proof fn law_every_precedent_has_its_line(p: PrecedentsView, i: int)
    ensures
        ({
            let habit_len: int = if p.type_pair matches Some(t) && t.merged + t.kept > 0 {
                1
            } else {
                0
            };
            let a = p.same_pair.len();
            let b = a + p.same_name.len();
            let c = b + habit_len;
            &&& lines(p).len() == c + p.reverts.len()
            &&& 0 <= i < p.same_pair.len() ==> lines(p)[i] == line(Family::SamePair, p.same_pair[i])
            &&& 0 <= i < p.same_name.len() ==> lines(p)[a + i] == line(
                Family::SameName,
                p.same_name[i],
            )
            &&& 0 <= i < p.reverts.len() ==> lines(p)[c + i] == line(Family::Reverts, p.reverts[i])
            &&& habit_len == 1 ==> lines(p)[b as int] == habit_line(p.type_pair->Some_0)
        }),
{
}

/// The line on a habit counts the merges, then the pairs kept apart, then the
/// reverts.
pub proof fn law_a_habit_is_counted(t: TypePairStats)
    ensures
        habit_line(t) == "for pairs of these two types in this base, people merged "@
            + signed_decimal(t.merged as int) + ", kept "@ + signed_decimal(t.kept as int)
            + " apart, and later reverted "@ + signed_decimal(t.reverted as int) + " merge(s)"@,
{
}

// ---- On record ----

/// The record of a decision names its family, the entry of the ledger, what was
/// done, the two names and the moment.
pub proof fn law_a_record_names_the_decision(family: Family, x: PrecedentView)
    ensures
        ({
            let e = entry(family, x);
            &&& has_members(e, 6)
            &&& has_member(
                e,
                "family"@,
                JsonView::Text(
                    match family {
                        Family::SamePair => "same_pair"@,
                        Family::SameName => "same_name"@,
                        Family::Reverts => "revert"@,
                    },
                ),
            )
            &&& has_member(e, "event_id"@, JsonView::Text(id_text(x.event_id)))
            &&& has_member(e, "action"@, JsonView::Text(x.action))
            &&& has_member(e, "left"@, JsonView::Text(x.left))
            &&& has_member(e, "right"@, JsonView::Text(x.right))
            &&& has_member(e, "at"@, JsonView::Text(rfc3339_text(x.at.secs, x.at.nanos)))
        }),
{
    let m = entry(family, x)->Object_0;
    assert(m[0].0 == "family"@);
    assert(m[1].0 == "event_id"@);
    assert(m[2].0 == "action"@);
    assert(m[3].0 == "left"@);
    assert(m[4].0 == "right"@);
    assert(m[5].0 == "at"@);
}

/// The record of a habit counts merges, pairs kept apart and reverts, and stands at
/// the end.
pub proof fn law_a_habit_is_recorded(p: PrecedentsView)
    ensures
        p.type_pair is None ==> habit_entries(p.type_pair).len() == 0,
        p.type_pair matches Some(t) ==> {
            let e = recorded(p)->Array_0.last();
            &&& has_members(e, 4)
            &&& has_member(e, "family"@, JsonView::Text("type_pair"@))
            &&& has_member(e, "merged"@, JsonView::Number(signed_decimal(t.merged as int)))
            &&& has_member(e, "kept"@, JsonView::Number(signed_decimal(t.kept as int)))
            &&& has_member(e, "reverted"@, JsonView::Number(signed_decimal(t.reverted as int)))
        },
{
    if let Some(t) = p.type_pair {
        let m = habit_entries(p.type_pair)[0]->Object_0;
        assert(recorded(p)->Array_0.last() == habit_entries(p.type_pair)[0]);
        assert(m[0].0 == "family"@);
        assert(m[1].0 == "merged"@);
        assert(m[2].0 == "kept"@);
        assert(m[3].0 == "reverted"@);
    }
}

// ---- Types ----

/// The type of an entity is that of the first row with its identifier; without such
/// a row it has none.
pub proof fn law_the_first_row_gives_the_type(
    rows: Seq<(u128, Option<u128>)>,
    id: u128,
    k: int,
)
    requires
        0 <= k <= rows.len(),
        forall|i: int| 0 <= i < k ==> (#[trigger] rows[i]).0 != id,
    ensures
        k == rows.len() ==> type_in(rows, id) is None,
        k < rows.len() && rows[k].0 == id ==> type_in(rows, id) == rows[k].1,
    decreases k,
{
    if k > 0 {
        let rest = rows.drop_first();
        assert(rows[0].0 != id);
        assert forall|i: int| 0 <= i < k - 1 implies (#[trigger] rest[i]).0 != id by {
            assert(rest[i] == rows[i + 1]);
        }
        law_the_first_row_gives_the_type(rest, id, k - 1);
    }
}

/// Two types come out exactly where both sides have one: that of the left side, then
/// that of the right.
pub proof fn law_both_sides_need_a_type(rows: Seq<(u128, Option<u128>)>, item: ItemView)
    ensures
        type_in(rows, item.left.id) is None || type_in(rows, item.right.id) is None ==> typed_pair(
            rows,
            item,
        ) is None,
        type_in(rows, item.left.id) is Some && type_in(rows, item.right.id) is Some ==> (typed_pair(
            rows,
            item,
        ) matches Some((a, b)) && type_in(rows, item.left.id) == Some(a) && type_in(
            rows,
            item.right.id,
        ) == Some(b)),
{
}

} // verus!
