//! Governance: read the ledger, then decide.
//!
//! Precedents are what the people of a knowledge base did to this pair, to this
//! name and to this pair of types. The function [`gate`] says whether a
//! verdict is carried out or left as a proposal. Only decisions that a person
//! signed count as precedents. What the governor decided by itself does not, or
//! it would quote itself and grow surer with every quote.

use vstd::prelude::*;
use vstd::string::*;

use crate::error::{AppError, AppResult};
use crate::ids::{id_json, id_text};
use crate::json::{array, integer, member, object, text, Json, JsonView, Member};
use crate::moment::{day_text, rfc3339_text, Moment};
use crate::review::{ItemView, ReviewItem};
use crate::single::Single;
use crate::strings::{lowercase, same, signed_decimal, trim, trimmed, write_signed};

verus! {

/// The bit pattern of 0.85, the confidence at which the governor acts. It is a
/// little above that of the adjudicator: there only the pair is at stake, here
/// the governor decides in place of a person.
pub const AUTO_CONF: u32 = 0x3f59_999a;

/// The bit pattern of 0.75, the confidence that is enough where history agrees.
pub const SUPPORTED_CONF: u32 = 0x3f40_0000;

/// How many decisions by people make a habit for a pair of types.
pub const TYPE_PAIR_MIN: i64 = 5;

/// How many precedents of a family go into a question.
pub const PER_FAMILY: i64 = 8;

/// The fuse: so many reverts within so many days switch governance off.
pub const FUSE_WINDOW_DAYS: i64 = 7;

pub const FUSE_REVERTS: i64 = 2;

/// One decision by a person.
#[derive(Debug, Clone)]
pub struct Precedent {
    pub event_id: u128,
    /// `review.merge`, `review.keep`, `merge.manual` or `merge.revert`.
    pub action: String,
    pub left: String,
    pub right: String,
    pub at: Moment,
}

/// What people did to pairs of these two types.
#[derive(Debug, Clone, Copy)]
pub struct TypePairStats {
    pub merged: i64,
    pub kept: i64,
    pub reverted: i64,
}

#[derive(Debug)]
pub struct Precedents {
    /// Decisions on these two names, whichever side they stood on.
    pub same_pair: Vec<Precedent>,
    /// Decisions on one of the names against another name.
    pub same_name: Vec<Precedent>,
    /// Absent where a side has no type.
    pub type_pair: Option<TypePairStats>,
    /// Reverts of merges that touched one of the names.
    pub reverts: Vec<Precedent>,
}

/// What a [`Precedent`] holds.
pub struct PrecedentView {
    pub event_id: u128,
    pub action: Seq<char>,
    pub left: Seq<char>,
    pub right: Seq<char>,
    pub at: Moment,
}

/// What [`Precedents`] hold.
pub struct PrecedentsView {
    pub same_pair: Seq<PrecedentView>,
    pub same_name: Seq<PrecedentView>,
    pub type_pair: Option<TypePairStats>,
    pub reverts: Seq<PrecedentView>,
}

impl DeepView for Precedent {
    type V = PrecedentView;

    open spec fn deep_view(&self) -> PrecedentView {
        PrecedentView {
            event_id: self.event_id,
            action: self.action@,
            left: self.left@,
            right: self.right@,
            at: self.at,
        }
    }
}

impl DeepView for Precedents {
    type V = PrecedentsView;

    open spec fn deep_view(&self) -> PrecedentsView {
        PrecedentsView {
            same_pair: self.same_pair.deep_view(),
            same_name: self.same_name.deep_view(),
            type_pair: self.type_pair,
            reverts: self.reverts.deep_view(),
        }
    }
}

impl PrecedentView {
    pub open spec fn merged(self) -> bool {
        self.action == "review.merge"@ || self.action == "merge.manual"@
    }
}

/// No precedent at all.
pub open spec fn no_precedents() -> PrecedentsView {
    PrecedentsView {
        same_pair: Seq::empty(),
        same_name: Seq::empty(),
        type_pair: None,
        reverts: Seq::empty(),
    }
}

/// Every precedent of a list lies at a moment of the calendar.
pub open spec fn all_dated(list: Seq<PrecedentView>) -> bool {
    forall|i: int| 0 <= i < list.len() ==> (#[trigger] list[i]).at.wf()
}

/// Every precedent lies at a moment of the calendar.
pub open spec fn dated(p: PrecedentsView) -> bool {
    all_dated(p.same_pair) && all_dated(p.same_name) && all_dated(p.reverts)
}

impl Precedent {
    /// Were the two records merged, or kept apart?
    pub fn merged(&self) -> (r: bool)
        ensures
            r == self.deep_view().merged(),
    {
        same(self.action.as_str(), "review.merge") || same(self.action.as_str(), "merge.manual")
    }
}

impl Default for TypePairStats {
    fn default() -> (r: TypePairStats)
        ensures
            r == (TypePairStats { merged: 0, kept: 0, reverted: 0 }),
    {
        TypePairStats { merged: 0, kept: 0, reverted: 0 }
    }
}

impl Default for Precedents {
    fn default() -> (r: Precedents)
        ensures
            r.deep_view() == no_precedents(),
    {
        let r = Precedents {
            same_pair: Vec::new(),
            same_name: Vec::new(),
            type_pair: None,
            reverts: Vec::new(),
        };
        assert(r.deep_view().same_pair =~= Seq::empty());
        assert(r.deep_view().same_name =~= Seq::empty());
        assert(r.deep_view().reverts =~= Seq::empty());
        r
    }
}

// ---- Acting or proposing ----

#[derive(Debug, Clone, Copy, PartialEq, Eq, Structural)]
pub enum Gate {
    /// Carry it out: a merge can be reverted, a pair kept apart can be merged.
    Apply,
    /// Leave it to a person as a proposal.
    Propose,
}

/// One of the decisions went this way.
pub open spec fn once(list: Seq<PrecedentView>, merged: bool) -> bool {
    exists|i: int| 0 <= i < list.len() && (#[trigger] list[i]).merged() == merged
}

/// People have the habit of deciding pairs of these types this way. A habit of
/// merging needs more: that no such merge was reverted.
pub open spec fn habit(t: TypePairStats, same: bool) -> bool {
    &&& t.merged + t.kept >= TYPE_PAIR_MIN
    &&& if same {
        t.merged >= t.kept && t.reverted == 0
    } else {
        t.kept > t.merged
    }
}

/// History agrees: people decided this pair so, or decided every pair with one
/// of the names so, or have this habit for the pair of types.
pub open spec fn agrees(p: PrecedentsView, same: bool) -> bool {
    ||| once(p.same_pair, same)
    ||| p.same_name.len() > 0 && !once(p.same_name, !same)
    ||| p.type_pair matches Some(t) && habit(t, same)
}

/// History objects: a merge of one of the names was reverted, or people decided
/// this very pair the other way.
pub open spec fn objects(p: PrecedentsView, same: bool) -> bool {
    p.reverts.len() > 0 || once(p.same_pair, !same)
}

pub open spec fn bar(p: PrecedentsView, same: bool) -> Single {
    if agrees(p, same) {
        Single { bits: SUPPORTED_CONF }
    } else {
        Single { bits: AUTO_CONF }
    }
}

pub open spec fn gated(
    same: Option<bool>,
    conf: Single,
    types_conflict: bool,
    p: PrecedentsView,
) -> Gate {
    match same {
        Some(s) => if !objects(p, s) && !(s && types_conflict) && conf.reaches(bar(p, s)) {
            Gate::Apply
        } else {
            Gate::Propose
        },
        None => Gate::Propose,
    }
}

fn any_merged(list: &Vec<Precedent>, merged: bool) -> (r: bool)
    ensures
        r == once(list.deep_view(), merged),
{
    let n: usize = list.len();
    for i in 0..n
        invariant
            n == list@.len(),
            forall|j: int| 0 <= j < i ==> (#[trigger] list.deep_view()[j]).merged() != merged,
    {
        if list[i].merged() == merged {
            assert(list.deep_view()[i as int].merged() == merged);
            return true;
        }
    }
    false
}

impl Precedents {
    pub fn supports(&self, same: bool) -> (r: bool)
        ensures
            r == agrees(self.deep_view(), same),
    {
        if any_merged(&self.same_pair, same) {
            return true;
        }
        if self.same_name.len() > 0 && !any_merged(&self.same_name, !same) {
            return true;
        }
        match &self.type_pair {
            Some(t) => {
                t.merged as i128 + t.kept as i128 >= TYPE_PAIR_MIN as i128 && if same {
                    t.merged >= t.kept && t.reverted == 0
                } else {
                    t.kept > t.merged
                }
            },
            None => false,
        }
    }
}

/// The governor judges by its own confidence, and history is its guide. Where
/// history objects, it only proposes. Where history agrees, the bar is lower.
/// Entities of conflicting types are never merged: that is a rule and no matter
/// of confidence.
pub fn gate(same: Option<bool>, conf: Single, types_conflict: bool, p: &Precedents) -> (r: Gate)
    ensures
        r == gated(same, conf, types_conflict, p.deep_view()),
{
    match same {
        None => Gate::Propose,
        Some(same) => {
            if p.reverts.len() > 0 || any_merged(&p.same_pair, !same) {
                return Gate::Propose;
            }
            if same && types_conflict {
                return Gate::Propose;
            }
            let needed: u32 = if p.supports(same) {
                SUPPORTED_CONF
            } else {
                AUTO_CONF
            };
            if conf.at_least(Single { bits: needed }) {
                Gate::Apply
            } else {
                Gate::Propose
            }
        },
    }
}

/// What people settled: they decided this very pair of entities (`prior`), or
/// they decided this pair of names, always the same way. Two entities of one name
/// are another matter: there the names do not say who is who. A revert settles
/// nothing.
pub open spec fn people_settled(
    left_name: Seq<char>,
    right_name: Seq<char>,
    p: PrecedentsView,
    prior: Option<bool>,
) -> Option<bool> {
    if p.reverts.len() > 0 {
        None
    } else if prior is Some {
        prior
    } else if lowercase(left_name) == lowercase(right_name) {
        None
    } else if p.same_pair.len() > 0 && !once(p.same_pair, !p.same_pair[0].merged()) {
        Some(p.same_pair[0].merged())
    } else {
        None
    }
}

pub fn settled_by_people(
    left_name: &str,
    right_name: &str,
    p: &Precedents,
    prior: Option<bool>,
) -> (r: Option<bool>)
    ensures
        r == people_settled(left_name@, right_name@, p.deep_view(), prior),
{
    if p.reverts.len() > 0 {
        return None;
    }
    if let Some(m) = prior {
        return Some(m);
    }
    if same(left_name.to_lowercase().as_str(), right_name.to_lowercase().as_str()) {
        return None;
    }
    if p.same_pair.len() == 0 {
        return None;
    }
    let first: bool = p.same_pair[0].merged();
    assert(p.deep_view().same_pair[0] == p.same_pair@[0].deep_view());
    if any_merged(&p.same_pair, !first) {
        None
    } else {
        Some(first)
    }
}

// ---- Families of precedents ----

#[derive(Debug, Clone, Copy, PartialEq, Eq, Structural)]
pub enum Family {
    SamePair,
    SameName,
    Reverts,
}

pub open spec fn verb(x: PrecedentView) -> Seq<char> {
    if x.merged() {
        "merged"@
    } else {
        "kept apart"@
    }
}

/// The day of a precedent.
pub open spec fn day_of(x: PrecedentView) -> Seq<char> {
    day_text(x.at.secs, x.at.nanos)
}

/// A precedent as a line of the question.
pub open spec fn line(family: Family, x: PrecedentView) -> Seq<char> {
    match family {
        Family::SamePair => "this same pair was "@ + verb(x) + " by a person on "@ + day_of(x),
        Family::SameName => "\""@ + x.left + "\" against \""@ + x.right + "\" was "@ + verb(x)
            + " by a person on "@ + day_of(x),
        Family::Reverts => "a merge of \""@ + x.left + "\" into \""@ + x.right
            + "\" was reverted by a person on "@ + day_of(x),
    }
}

pub open spec fn lines_of(family: Family, list: Seq<PrecedentView>) -> Seq<Seq<char>> {
    list.map_values(|x: PrecedentView| line(family, x))
}

pub open spec fn habit_line(t: TypePairStats) -> Seq<char> {
    "for pairs of these two types in this base, people merged "@ + signed_decimal(t.merged as int)
        + ", kept "@ + signed_decimal(t.kept as int) + " apart, and later reverted "@
        + signed_decimal(t.reverted as int) + " merge(s)"@
}

/// A pair of types that people never decided has no line.
pub open spec fn habit_lines(t: Option<TypePairStats>) -> Seq<Seq<char>> {
    match t {
        Some(t) => if t.merged + t.kept > 0 {
            seq![habit_line(t)]
        } else {
            Seq::empty()
        },
        None => Seq::empty(),
    }
}

/// The precedents as lines of the question.
pub open spec fn lines(p: PrecedentsView) -> Seq<Seq<char>> {
    lines_of(Family::SamePair, p.same_pair) + lines_of(Family::SameName, p.same_name)
        + habit_lines(p.type_pair) + lines_of(Family::Reverts, p.reverts)
}

fn write_line(family: Family, x: &Precedent) -> (r: String)
    requires
        x.at.wf(),
    ensures
        r@ == line(family, x.deep_view()),
{
    let done: &'static str = if x.merged() {
        "merged"
    } else {
        "kept apart"
    };
    let day: String = x.at.day();
    let mut out: String = String::new();
    match family {
        Family::SamePair => {
            out.append("this same pair was ");
            out.append(done);
            out.append(" by a person on ");
        },
        Family::SameName => {
            out.append("\"");
            out.append(x.left.as_str());
            out.append("\" against \"");
            out.append(x.right.as_str());
            out.append("\" was ");
            out.append(done);
            out.append(" by a person on ");
        },
        Family::Reverts => {
            out.append("a merge of \"");
            out.append(x.left.as_str());
            out.append("\" into \"");
            out.append(x.right.as_str());
            out.append("\" was reverted by a person on ");
        },
    }
    out.append(day.as_str());
    assert(out@ =~= line(family, x.deep_view()));
    out
}

fn push_lines(out: &mut Vec<String>, family: Family, list: &Vec<Precedent>)
    requires
        all_dated(list.deep_view()),
    ensures
        final(out).deep_view() == old(out).deep_view() + lines_of(family, list.deep_view()),
{
    let ghost before = out.deep_view();
    let ghost all = list.deep_view();
    let n: usize = list.len();
    assert(before + lines_of(family, all.take(0)) =~= before);
    for i in 0..n
        invariant
            n == list@.len(),
            all == list.deep_view(),
            all_dated(all),
            out.deep_view() == before + lines_of(family, all.take(i as int)),
    {
        assert(all[i as int].at.wf());
        let ghost sofar = out.deep_view();
        out.push(write_line(family, &list[i]));
        assert(out.deep_view() =~= sofar.push(line(family, all[i as int])));
        assert(lines_of(family, all.take(i + 1)) =~= lines_of(family, all.take(i as int)).push(
            line(family, all[i as int]),
        ));
    }
    assert(all.take(n as int) =~= all);
}

/// The precedents as lines for the model to read.
pub fn render_lines(p: &Precedents) -> (r: Vec<String>)
    requires
        dated(p.deep_view()),
    ensures
        r.deep_view() == lines(p.deep_view()),
{
    let mut out: Vec<String> = Vec::new();
    push_lines(&mut out, Family::SamePair, &p.same_pair);
    push_lines(&mut out, Family::SameName, &p.same_name);
    let ghost sofar = out.deep_view();
    if let Some(t) = &p.type_pair {
        if t.merged as i128 + t.kept as i128 > 0 {
            let mut habit: String =
                "for pairs of these two types in this base, people merged ".to_owned();
            habit.append(write_signed(t.merged).as_str());
            habit.append(", kept ");
            habit.append(write_signed(t.kept).as_str());
            habit.append(" apart, and later reverted ");
            habit.append(write_signed(t.reverted).as_str());
            habit.append(" merge(s)");
            assert(habit@ =~= habit_line(*t));
            out.push(habit);
        }
    }
    assert(out.deep_view() =~= sofar + habit_lines(p.type_pair));
    push_lines(&mut out, Family::Reverts, &p.reverts);
    assert(out.deep_view() =~= lines(p.deep_view()));
    out
}

// ---- What is recorded of them ----

pub open spec fn tag(family: Family) -> Seq<char> {
    match family {
        Family::SamePair => "same_pair"@,
        Family::SameName => "same_name"@,
        Family::Reverts => "revert"@,
    }
}

pub open spec fn entry(family: Family, x: PrecedentView) -> JsonView {
    JsonView::Object(
        seq![
            ("family"@, JsonView::Text(tag(family))),
            ("event_id"@, JsonView::Text(id_text(x.event_id))),
            ("action"@, JsonView::Text(x.action)),
            ("left"@, JsonView::Text(x.left)),
            ("right"@, JsonView::Text(x.right)),
            ("at"@, JsonView::Text(rfc3339_text(x.at.secs, x.at.nanos))),
        ],
    )
}

pub open spec fn entries_of(family: Family, list: Seq<PrecedentView>) -> Seq<JsonView> {
    list.map_values(|x: PrecedentView| entry(family, x))
}

pub open spec fn habit_entries(t: Option<TypePairStats>) -> Seq<JsonView> {
    match t {
        Some(t) => seq![
            JsonView::Object(
                seq![
                    ("family"@, JsonView::Text("type_pair"@)),
                    ("merged"@, JsonView::Number(signed_decimal(t.merged as int))),
                    ("kept"@, JsonView::Number(signed_decimal(t.kept as int))),
                    ("reverted"@, JsonView::Number(signed_decimal(t.reverted as int))),
                ],
            ),
        ],
        None => Seq::empty(),
    }
}

/// The record of the precedents, each with its family.
pub open spec fn recorded(p: PrecedentsView) -> JsonView {
    JsonView::Array(
        entries_of(Family::SamePair, p.same_pair) + entries_of(Family::SameName, p.same_name)
            + entries_of(Family::Reverts, p.reverts) + habit_entries(p.type_pair),
    )
}

fn write_entry(family: Family, x: &Precedent) -> (r: Json)
    requires
        x.at.wf(),
    ensures
        r.deep_view() == entry(family, x.deep_view()),
{
    let name: &'static str = match family {
        Family::SamePair => "same_pair",
        Family::SameName => "same_name",
        Family::Reverts => "revert",
    };
    let members: Vec<Member> = vec![
        member("family", text(name)),
        member("event_id", id_json(x.event_id)),
        member("action", text(x.action.as_str())),
        member("left", text(x.left.as_str())),
        member("right", text(x.right.as_str())),
        member("at", Json::Text(x.at.rfc3339())),
    ];
    assert(members.deep_view() =~= entry(family, x.deep_view())->Object_0);
    object(members)
}

fn push_entries(out: &mut Vec<Json>, family: Family, list: &Vec<Precedent>)
    requires
        all_dated(list.deep_view()),
    ensures
        final(out).deep_view() == old(out).deep_view() + entries_of(family, list.deep_view()),
{
    let ghost before = out.deep_view();
    let ghost all = list.deep_view();
    let n: usize = list.len();
    assert(before + entries_of(family, all.take(0)) =~= before);
    for i in 0..n
        invariant
            n == list@.len(),
            all == list.deep_view(),
            all_dated(all),
            out.deep_view() == before + entries_of(family, all.take(i as int)),
    {
        assert(all[i as int].at.wf());
        let ghost sofar = out.deep_view();
        out.push(write_entry(family, &list[i]));
        assert(out.deep_view() =~= sofar.push(entry(family, all[i as int])));
        assert(entries_of(family, all.take(i + 1)) =~= entries_of(
            family,
            all.take(i as int),
        ).push(entry(family, all[i as int])));
    }
    assert(all.take(n as int) =~= all);
}

pub fn precedents_json(p: &Precedents) -> (r: Json)
    requires
        dated(p.deep_view()),
    ensures
        r.deep_view() == recorded(p.deep_view()),
{
    let mut all: Vec<Json> = Vec::new();
    push_entries(&mut all, Family::SamePair, &p.same_pair);
    push_entries(&mut all, Family::SameName, &p.same_name);
    push_entries(&mut all, Family::Reverts, &p.reverts);
    let ghost sofar = all.deep_view();
    if let Some(t) = &p.type_pair {
        let members: Vec<Member> = vec![
            member("family", text("type_pair")),
            member("merged", integer(t.merged)),
            member("kept", integer(t.kept)),
            member("reverted", integer(t.reverted)),
        ];
        assert(members.deep_view() =~= habit_entries(p.type_pair)[0]->Object_0);
        all.push(object(members));
    }
    assert(all.deep_view() =~= sofar + habit_entries(p.type_pair));
    assert(all.deep_view() =~= recorded(p.deep_view())->Array_0);
    array(all)
}

// ---- Reading the ledger ----

/// The two names that the ledger is searched for, folded to lower case.
pub fn names_of(item: &ReviewItem) -> (r: (String, String))
    ensures
        r.0@ == lowercase(item.deep_view().left.name),
        r.1@ == lowercase(item.deep_view().right.name),
{
    (item.left.name.to_lowercase(), item.right.name.to_lowercase())
}

/// The type of the first row with this identifier.
pub open spec fn type_in(rows: Seq<(u128, Option<u128>)>, id: u128) -> Option<u128>
    decreases rows.len(),
{
    if rows.len() == 0 {
        None
    } else if rows[0].0 == id {
        rows[0].1
    } else {
        type_in(rows.drop_first(), id)
    }
}

/// The two types whose habit counts, where both sides have one.
pub open spec fn typed_pair(rows: Seq<(u128, Option<u128>)>, item: ItemView) -> Option<
    (u128, u128),
> {
    match (type_in(rows, item.left.id), type_in(rows, item.right.id)) {
        (Some(a), Some(b)) => Some((a, b)),
        _ => None,
    }
}

fn type_of(rows: &Vec<(u128, Option<u128>)>, id: u128) -> (r: Option<u128>)
    ensures
        r == type_in(rows@, id),
{
    let n: usize = rows.len();
    assert(rows@.skip(0) =~= rows@);
    for i in 0..n
        invariant
            n == rows@.len(),
            type_in(rows@, id) == type_in(rows@.skip(i as int), id),
    {
        assert(rows@.skip(i as int)[0] == rows@[i as int]);
        if rows[i].0 == id {
            return rows[i].1;
        }
        assert(rows@.skip(i as int).drop_first() =~= rows@.skip(i + 1));
    }
    None
}

pub fn types_of(rows: &Vec<(u128, Option<u128>)>, item: &ReviewItem) -> (r: Option<(u128, u128)>)
    ensures
        r == typed_pair(rows@, item.deep_view()),
{
    match (type_of(rows, item.left.id), type_of(rows, item.right.id)) {
        (Some(a), Some(b)) => Some((a, b)),
        _ => None,
    }
}

/// The name on the left of an entry: a review records `left` and `right`, a
/// merge records `source` and `target`.
pub const LEFT_NAME: &'static str = "lower(COALESCE(detail->>'left', detail->>'source', ''))";

pub const RIGHT_NAME: &'static str = "lower(COALESCE(detail->>'right', detail->>'target', ''))";

/// The columns of a precedent.
pub const COLUMNS: &'static str = "id AS event_id, action, COALESCE(detail->>'left', detail->>'source', '') AS \"left\", COALESCE(detail->>'right', detail->>'target', '') AS \"right\", created_at AS at";

/// The condition that an entry was signed by a person.
pub const BY_A_PERSON: &'static str = " AND actor_id IS NOT NULL";

pub open spec fn is_pair_text() -> Seq<char> {
    "(("@ + LEFT_NAME@ + " = $2 AND "@ + RIGHT_NAME@ + " = $3) OR ("@ + LEFT_NAME@ + " = $3 AND "@
        + RIGHT_NAME@ + " = $2))"@
}

pub open spec fn touches_text() -> Seq<char> {
    "("@ + LEFT_NAME@ + " IN ($2, $3) OR "@ + RIGHT_NAME@ + " IN ($2, $3))"@
}

/// The query for a family of precedents: `$1` is the knowledge base, `$2` and
/// `$3` are the two names, and `$4` is the limit.
pub open spec fn family_query(family: Family) -> Seq<char> {
    let decided =
        " AND action IN ('review.merge', 'review.keep', 'merge.manual') AND "@;
    let head = "SELECT "@ + COLUMNS@ + " FROM audit_events WHERE kb_id = $1"@;
    let which = match family {
        Family::SamePair => BY_A_PERSON@ + decided + is_pair_text(),
        Family::SameName => BY_A_PERSON@ + decided + touches_text() + " AND NOT "@
            + is_pair_text(),
        Family::Reverts => BY_A_PERSON@ + " AND action = 'merge.revert' AND "@ + touches_text(),
    };
    head + which + " ORDER BY created_at DESC LIMIT $4"@
}

/// The query for the decisions on names that match a pattern: `$1` is the
/// knowledge base, `$2` the pattern and `$3` the limit.
pub open spec fn search_query() -> Seq<char> {
    "SELECT "@ + COLUMNS@ + " FROM audit_events WHERE kb_id = $1"@ + BY_A_PERSON@
        + " AND action IN ('review.merge', 'review.keep', 'merge.manual', 'merge.revert') AND ("@
        + LEFT_NAME@ + " LIKE $2 OR "@ + RIGHT_NAME@ + " LIKE $2) ORDER BY created_at DESC LIMIT $3"@
}

fn is_pair() -> (r: String)
    ensures
        r@ == is_pair_text(),
{
    let mut out: String = "((".to_owned();
    out.append(LEFT_NAME);
    out.append(" = $2 AND ");
    out.append(RIGHT_NAME);
    out.append(" = $3) OR (");
    out.append(LEFT_NAME);
    out.append(" = $3 AND ");
    out.append(RIGHT_NAME);
    out.append(" = $2))");
    out
}

fn touches() -> (r: String)
    ensures
        r@ == touches_text(),
{
    let mut out: String = "(".to_owned();
    out.append(LEFT_NAME);
    out.append(" IN ($2, $3) OR ");
    out.append(RIGHT_NAME);
    out.append(" IN ($2, $3))");
    out
}

pub fn precedent_query(family: Family) -> (r: String)
    ensures
        r@ == family_query(family),
{
    let decided: &'static str =
        " AND action IN ('review.merge', 'review.keep', 'merge.manual') AND ";
    let mut out: String = "SELECT ".to_owned();
    out.append(COLUMNS);
    out.append(" FROM audit_events WHERE kb_id = $1");
    match family {
        Family::SamePair => {
            out.append(BY_A_PERSON);
            out.append(decided);
            out.append(is_pair().as_str());
        },
        Family::SameName => {
            out.append(BY_A_PERSON);
            out.append(decided);
            out.append(touches().as_str());
            out.append(" AND NOT ");
            out.append(is_pair().as_str());
        },
        Family::Reverts => {
            out.append(BY_A_PERSON);
            out.append(" AND action = 'merge.revert' AND ");
            out.append(touches().as_str());
        },
    }
    out.append(" ORDER BY created_at DESC LIMIT $4");
    assert(out@ =~= family_query(family));
    out
}

pub fn ledger_query() -> (r: String)
    ensures
        r@ == search_query(),
{
    let mut out: String = "SELECT ".to_owned();
    out.append(COLUMNS);
    out.append(" FROM audit_events WHERE kb_id = $1");
    out.append(BY_A_PERSON);
    out.append(
        " AND action IN ('review.merge', 'review.keep', 'merge.manual', 'merge.revert') AND (",
    );
    out.append(LEFT_NAME);
    out.append(" LIKE $2 OR ");
    out.append(RIGHT_NAME);
    out.append(" LIKE $2) ORDER BY created_at DESC LIMIT $3");
    out
}

/// The pattern for names that contain a query, whatever its case.
pub fn like_pattern(query: &str) -> (r: String)
    ensures
        r@ == "%"@ + lowercase(trimmed(query@)) + "%"@,
{
    let mut out: String = "%".to_owned();
    out.append(trim(query).to_lowercase().as_str());
    out.append("%");
    out
}

/// An entity whose name contains a query: what it is, and how many facts it has.
#[derive(Debug, Clone)]
pub struct Namesake {
    pub name: String,
    pub type_label: Option<String>,
    pub facts: i64,
    pub merged: bool,
}

// ---- Decisions of the governor ----

/// A decision that the governor records.
#[derive(Debug)]
pub struct NewDecision {
    pub run_id: u128,
    pub target_id: u128,
    /// `merge`, `keep` or `unsure`.
    pub action: &'static str,
    pub confidence: Single,
    pub reason: Option<String>,
    pub precedents: Json,
    /// `proposed` or `applied`.
    pub status: &'static str,
    pub merge_id: Option<u128>,
    /// The question that is left to a person.
    pub question: Option<String>,
    /// What was looked at on the way.
    pub trace: Json,
    /// How many calls of the model it took.
    pub calls: i32,
}

/// What a [`NewDecision`] holds.
pub struct DecisionView {
    pub run_id: u128,
    pub target_id: u128,
    pub action: Seq<char>,
    pub confidence: Single,
    pub reason: Option<Seq<char>>,
    pub precedents: JsonView,
    pub status: Seq<char>,
    pub merge_id: Option<u128>,
    pub question: Option<Seq<char>>,
    pub trace: JsonView,
    pub calls: i32,
}

impl DeepView for NewDecision {
    type V = DecisionView;

    open spec fn deep_view(&self) -> DecisionView {
        DecisionView {
            run_id: self.run_id,
            target_id: self.target_id,
            action: self.action@,
            confidence: self.confidence,
            reason: self.reason.deep_view(),
            precedents: self.precedents.deep_view(),
            status: self.status@,
            merge_id: self.merge_id,
            question: self.question.deep_view(),
            trace: self.trace.deep_view(),
            calls: self.calls,
        }
    }
}

/// A person answers a decision; `rows` counts the open ones that the answer met.
/// An answer to a decision that has one already is refused.
pub fn settle(rows: u64) -> (r: AppResult<()>)
    ensures
        rows > 0 ==> r is Ok,
        rows == 0 ==> (r matches Err(AppError::Conflict(m)) && m@
            == "this decision has already been answered"@),
{
    if rows == 0 {
        return Err(AppError::Conflict("this decision has already been answered".to_owned()));
    }
    Ok(())
}

} // verus!
