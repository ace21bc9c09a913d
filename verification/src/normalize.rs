//! The shape of a model's reply before it is stored: structure alone, no
//! vocabulary.
//!
//! Reading a passage is the model's part. What is checked here is whether its
//! output keeps the agreed shape: whether the quote holds the value, whether a
//! value is only punctuation, whether a side is a written time, whether the
//! same sentence already has the edge. Nothing here knows a word of any
//! language. Everything that a rule does is reported.

use vstd::prelude::*;
use vstd::string::*;

use crate::chars::{
    alphanumeric, ascii_alphanumeric, is_alphanumeric, is_ascii_alphanumeric, numeric, white_space,
};
use crate::extraction::{EntityView, ExtractedEntity, ExtractedFact, Extraction, ExtractionView, FactView};
use crate::json::{Json, JsonView, Member};
use crate::moment::{contract_time, is_contract_time};
use crate::strings::{
    chars_of, contains, eq_ignore_ascii_case, fold_spaces, folded, holds, is_among, lowercase,
    occurs_at, same, same_ignoring_ascii_case, same_option, stands_at, trim, trim_end_by,
    trim_end_where, trim_owned, trimmed,
};

verus! {

/// What a rule did.
#[derive(Debug, Clone, PartialEq, Eq)]
pub enum Normalization {
    /// The value is only punctuation, or empty: the cell of a table that says
    /// "none". The fact is dropped.
    NoValue { predicate: String, written: String },
    /// The value had a tail that the quote does not hold: what the quote holds
    /// is kept.
    ValueTrimmed { predicate: String, kept: String, dropped: String },
    /// No object and no value, only attributes of the edge: each attribute
    /// becomes a value fact about the subject.
    QualifiersWithoutObject { predicate: String, values: usize },
    /// The object is a written time, and a time is no entity: the figures on
    /// the edge become values that hold from that time on.
    TimeAsObject { predicate: String, written: String, values: usize },
    /// The subject is a written time: whose figure it is was not said. The fact
    /// is dropped.
    TimeAsSubject { predicate: String, written: String },
    /// The name of the object wraps another declared entity, and the same
    /// sentence has the same edge to that entity. The fact is dropped.
    ObjectDescribesDeclared { predicate: String, name: String, head: String },
    /// A declaration that facts referred to and none does any more. It is
    /// dropped.
    OrphanDeclaration { name: String },
}

/// What a [`Normalization`] holds.
pub enum NormalizationView {
    NoValue { predicate: Seq<char>, written: Seq<char> },
    ValueTrimmed { predicate: Seq<char>, kept: Seq<char>, dropped: Seq<char> },
    QualifiersWithoutObject { predicate: Seq<char>, values: int },
    TimeAsObject { predicate: Seq<char>, written: Seq<char>, values: int },
    TimeAsSubject { predicate: Seq<char>, written: Seq<char> },
    ObjectDescribesDeclared { predicate: Seq<char>, name: Seq<char>, head: Seq<char> },
    OrphanDeclaration { name: Seq<char> },
}

impl DeepView for Normalization {
    type V = NormalizationView;

    open spec fn deep_view(&self) -> NormalizationView {
        match self {
            Normalization::NoValue { predicate, written } => NormalizationView::NoValue {
                predicate: predicate@,
                written: written@,
            },
            Normalization::ValueTrimmed { predicate, kept, dropped } =>
                NormalizationView::ValueTrimmed {
                predicate: predicate@,
                kept: kept@,
                dropped: dropped@,
            },
            Normalization::QualifiersWithoutObject { predicate, values } =>
                NormalizationView::QualifiersWithoutObject {
                predicate: predicate@,
                values: *values as int,
            },
            Normalization::TimeAsObject { predicate, written, values } =>
                NormalizationView::TimeAsObject {
                predicate: predicate@,
                written: written@,
                values: *values as int,
            },
            Normalization::TimeAsSubject { predicate, written } =>
                NormalizationView::TimeAsSubject { predicate: predicate@, written: written@ },
            Normalization::ObjectDescribesDeclared { predicate, name, head } =>
                NormalizationView::ObjectDescribesDeclared {
                predicate: predicate@,
                name: name@,
                head: head@,
            },
            Normalization::OrphanDeclaration { name } => NormalizationView::OrphanDeclaration {
                name: name@,
            },
        }
    }
}

// ---- Values ----

/// The form in which texts are compared: white space folded, lower case.
pub open spec fn normal_form(s: Seq<char>) -> Seq<char> {
    lowercase(folded(s))
}

pub open spec fn has_numeric(s: Seq<char>) -> bool {
    exists|i: int| 0 <= i < s.len() && numeric(#[trigger] s[i])
}

/// Neither a letter nor a number.
pub open spec fn says_nothing(s: Seq<char>) -> bool {
    forall|i: int| 0 <= i < s.len() ==> !alphanumeric(#[trigger] s[i])
}

pub open spec fn closing() -> spec_fn(char) -> bool {
    |c: char| c == ',' || c == ';' || c == ':' || c == '\u{3001}' || c == '\u{FF0C}'
}

/// What stands before position `at`, without a closing mark at its end.
pub open spec fn before_cut(value: Seq<char>, at: int) -> Seq<char> {
    trim_end_where(trimmed(value.take(at)), closing())
}

pub open spec fn after_cut(value: Seq<char>, at: int) -> Seq<char> {
    trimmed(value.skip(at))
}

/// The value can be cut at the white space at `at`: what stands before it has a
/// number and stands in the quote.
pub open spec fn cuts(value: Seq<char>, quote: Seq<char>, at: int) -> bool {
    let kept = before_cut(value, at);
    &&& 0 < at < value.len()
    &&& white_space(value[at])
    &&& kept.len() > 0
    &&& has_numeric(kept)
    &&& holds(normal_form(quote), normal_form(kept))
}

/// The last place before `end` where the value can be cut.
pub open spec fn last_cut(value: Seq<char>, quote: Seq<char>, end: int) -> Option<int>
    decreases end,
{
    if end <= 0 {
        None
    } else if cuts(value, quote, end - 1) {
        Some(end - 1)
    } else {
        last_cut(value, quote, end - 1)
    }
}

/// The value as the quote holds it, and the tail that is no part of it: the
/// tail has a number of its own and does not stand in the quote. `None` where
/// the quote is blank, the whole value stands in it, or nothing is to be cut.
pub open spec fn tail_of(value: Seq<char>, quote: Seq<char>) -> Option<(Seq<char>, Seq<char>)> {
    if folded(quote).len() == 0 || holds(normal_form(quote), normal_form(value)) {
        None
    } else {
        match last_cut(value, quote, value.len() as int) {
            None => None,
            Some(at) => {
                let rest = after_cut(value, at);
                if rest.len() > 0 && has_numeric(rest) && !holds(
                    normal_form(quote),
                    normal_form(rest),
                ) {
                    Some((before_cut(value, at), rest))
                } else {
                    None
                }
            },
        }
    }
}

pub fn norm(s: &str) -> (r: String)
    ensures
        r@ == normal_form(s@),
{
    fold_spaces(s).as_str().to_lowercase()
}

fn has_digit(s: &str) -> (r: bool)
    ensures
        r == has_numeric(s@),
{
    let c: Vec<char> = chars_of(s);
    let n: usize = c.len();
    for i in 0..n
        invariant
            n == c@.len(),
            c@ == s@,
            forall|j: int| 0 <= j < i ==> !numeric(#[trigger] s@[j]),
    {
        if c[i].is_numeric() {
            assert(numeric(s@[i as int]));
            return true;
        }
    }
    false
}

/// Only punctuation, neither a letter nor a number: the cell of a table that
/// says "none".
pub fn is_no_value(written: &str) -> (r: bool)
    ensures
        r == says_nothing(written@),
{
    let c: Vec<char> = chars_of(written);
    let n: usize = c.len();
    for i in 0..n
        invariant
            n == c@.len(),
            c@ == written@,
            forall|j: int| 0 <= j < i ==> !alphanumeric(#[trigger] written@[j]),
    {
        if is_alphanumeric(c[i]) {
            assert(alphanumeric(written@[i as int]));
            return false;
        }
    }
    true
}

fn trim_closing<'a>(s: &'a str) -> (r: &'a str)
    ensures
        r@ == trim_end_where(s@, closing()),
{
    let c: Vec<char> = chars_of(s);
    let n: usize = c.len();
    let mut drop: Vec<bool> = Vec::new();
    for i in 0..n
        invariant
            n == c@.len(),
            drop@.len() == i,
            forall|j: int| 0 <= j < i ==> #[trigger] drop@[j] == closing()(c@[j]),
    {
        let x: char = c[i];
        drop.push(x == ',' || x == ';' || x == ':' || x == '\u{3001}' || x == '\u{FF0C}');
    }
    trim_end_by(s, &drop, Ghost(closing()))
}

/// The part of `value` to keep and the tail to drop, where a tail hangs on it
/// that is no part of it.
pub fn ungrounded_tail<'a>(value: &'a str, quote: &str) -> (r: Option<(&'a str, &'a str)>)
    ensures
        match tail_of(value@, quote@) {
            Some((kept, rest)) => r matches Some((k, d)) && k@ == kept && d@ == rest,
            None => r is None,
        },
        folded(quote@).len() == 0 ==> r is None,
{
    let spaced: String = fold_spaces(quote);
    if spaced.as_str().is_empty() {
        return None;
    }
    let q: String = spaced.as_str().to_lowercase();
    let whole: String = norm(value);
    if contains(q.as_str(), whole.as_str()) {
        return None;
    }
    let c: Vec<char> = chars_of(value);
    let mut end: usize = c.len();
    while end > 0
        invariant
            c@ == value@,
            q@ == normal_form(quote@),
            end <= c@.len(),
            folded(quote@).len() > 0,
            !holds(normal_form(quote@), normal_form(value@)),
            last_cut(value@, quote@, end as int) == last_cut(
                value@,
                quote@,
                value@.len() as int,
            ),
        decreases end,
    {
        let at: usize = end - 1;
        if at > 0 && c[at].is_whitespace() {
            assert(value@.subrange(0, at as int) =~= value@.take(at as int));
            assert(value@.subrange(at as int, value@.len() as int) =~= value@.skip(at as int));
            let kept: &'a str = trim_closing(trim(value.substring_char(0, at)));
            if !kept.is_empty() && has_digit(kept) && contains(q.as_str(), norm(kept).as_str()) {
                let rest: &'a str = trim(value.substring_char(at, c.len()));
                if !rest.is_empty() && has_digit(rest) && !contains(
                    q.as_str(),
                    norm(rest).as_str(),
                ) {
                    return Some((kept, rest));
                }
                return None;
            }
        }
        end = at;
    }
    None
}

// ---- Qualifiers ----

/// The key of an attribute that says a unit, not a value.
pub open spec fn unit_key(k: Seq<char>) -> bool {
    let name = lowercase(trimmed(k));
    ||| name == "currency"@
    ||| name == "币种"@
    ||| name == "货币"@
    ||| name == "unit"@
    ||| name == "单位"@
}

pub open spec fn carries_value() -> spec_fn((Seq<char>, JsonView)) -> bool {
    |m: (Seq<char>, JsonView)| !(m.1 is Null) && !unit_key(m.0)
}

/// The attributes of an edge that are values.
pub open spec fn values_on(f: FactView) -> Seq<(Seq<char>, JsonView)> {
    match f.qualifiers {
        Some(q) => q.filter(carries_value()),
        None => Seq::empty(),
    }
}

pub fn is_unit_key(k: &str) -> (r: bool)
    ensures
        r == unit_key(k@),
{
    let name: String = trim(k).to_lowercase();
    let n: &str = name.as_str();
    same(n, "currency") || same(n, "币种") || same(n, "货币") || same(n, "unit") || same(
        n,
        "单位",
    )
}

pub fn qualifier_values(f: &ExtractedFact) -> (r: Vec<Member>)
    ensures
        r.deep_view() == values_on(f.deep_view()),
{
    let mut out: Vec<Member> = Vec::new();
    if let Some(q) = &f.qualifiers {
        let n: usize = q.len();
        let ghost all = q.deep_view();
        for i in 0..n
            invariant
                n == q@.len(),
                all == q.deep_view(),
                out.deep_view() == all.take(i as int).filter(carries_value()),
        {
            proof {
                assert(all.take(i + 1).drop_last() =~= all.take(i as int));
                reveal(Seq::filter);
            }
            let ghost before = out.deep_view();
            if !q[i].value.is_null() && !is_unit_key(q[i].key.as_str()) {
                out.push(Member { key: q[i].key.clone(), value: q[i].value.copy() });
                assert(out.deep_view() =~= before.push(all[i as int]));
            }
        }
        assert(all.take(n as int) =~= all);
    } else {
        assert(out.deep_view() =~= Seq::empty());
    }
    out
}

/// A value fact about the subject of `f`.
pub open spec fn as_value_fact(
    f: FactView,
    predicate: Seq<char>,
    value: JsonView,
    valid_from: Option<Seq<char>>,
) -> FactView {
    FactView {
        predicate,
        object: None,
        object_ref: None,
        value: Some(value),
        qualifiers: None,
        valid_from: if valid_from is Some {
            valid_from
        } else {
            f.valid_from
        },
        object_span: None,
        ..f
    }
}

pub fn value_fact(
    f: &ExtractedFact,
    predicate: String,
    value: Json,
    valid_from: Option<String>,
) -> (r: ExtractedFact)
    ensures
        r.deep_view() == as_value_fact(
            f.deep_view(),
            predicate@,
            value.deep_view(),
            valid_from.deep_view(),
        ),
{
    let from: Option<String> = match valid_from {
        Some(t) => Some(t),
        None => f.valid_from.clone(),
    };
    ExtractedFact {
        subject: f.subject.clone(),
        subject_ref: f.subject_ref.clone(),
        predicate,
        object: None,
        object_ref: None,
        value: Some(value),
        qualifiers: None,
        valid_from: from,
        valid_to: f.valid_to.clone(),
        confidence: f.confidence,
        quote: f.quote.clone(),
        subject_span: f.subject_span.clone(),
        object_span: None,
    }
}

// ---- Sides ----

/// The first entity from `k` on whose handle is `handle`.
pub open spec fn by_handle(entities: Seq<EntityView>, handle: Seq<char>, k: int) -> Option<Seq<
    char,
>>
    decreases entities.len() - k,
{
    if k >= entities.len() {
        None
    } else if entities[k].local_id matches Some(id) && trimmed(id) == trimmed(handle) {
        Some(trimmed(entities[k].name))
    } else {
        by_handle(entities, handle, k + 1)
    }
}

/// The declared name that a handle stands for.
pub open spec fn handle_name(entities: Seq<EntityView>, handle: Option<Seq<char>>) -> Option<
    Seq<char>,
> {
    match handle {
        Some(h) => by_handle(entities, h, 0),
        None => None,
    }
}

/// The name of a side: what its handle stands for, or else what was written.
pub open spec fn side_name(
    entities: Seq<EntityView>,
    handle: Option<Seq<char>>,
    written: Option<Seq<char>>,
) -> Option<Seq<char>> {
    match handle_name(entities, handle) {
        Some(n) => Some(n),
        None => match written {
            Some(w) => Some(trimmed(w)),
            None => None,
        },
    }
}

pub open spec fn unless_empty(s: Option<Seq<char>>) -> Option<Seq<char>> {
    match s {
        Some(t) => if t.len() > 0 {
            s
        } else {
            None
        },
        None => None,
    }
}

pub open spec fn subject_name(entities: Seq<EntityView>, f: FactView) -> Seq<char> {
    match handle_name(entities, f.subject_ref) {
        Some(n) => n,
        None => trimmed(f.subject),
    }
}

pub open spec fn object_name(entities: Seq<EntityView>, f: FactView) -> Option<Seq<char>> {
    side_name(entities, f.object_ref, f.object)
}

/// The object of a fact, where it has one that is not empty.
pub open spec fn object_of(entities: Seq<EntityView>, f: FactView) -> Option<Seq<char>> {
    unless_empty(object_name(entities, f))
}

/// The subject of a fact, where it is not empty.
pub open spec fn subject_of(entities: Seq<EntityView>, f: FactView) -> Option<Seq<char>> {
    unless_empty(Some(subject_name(entities, f)))
}

fn bound_name(entities: &Vec<ExtractedEntity>, handle: &Option<String>) -> (r: Option<String>)
    ensures
        r.deep_view() == handle_name(entities.deep_view(), handle.deep_view()),
{
    match handle {
        None => None,
        Some(h) => {
            let want: &str = trim(h.as_str());
            let n: usize = entities.len();
            let ghost all = entities.deep_view();
            let mut k: usize = 0;
            while k < n
                invariant
                    k <= n,
                    n == entities@.len(),
                    all == entities.deep_view(),
                    *handle == Some(*h),
                    want@ == trimmed(h@),
                    by_handle(all, h@, 0) == by_handle(all, h@, k as int),
                decreases n - k,
            {
                assert(all[k as int] == entities@[k as int].deep_view());
                if let Some(id) = &entities[k].local_id {
                    if same(trim(id.as_str()), want) {
                        return Some(trim_owned(entities[k].name.as_str()));
                    }
                }
                k = k + 1;
            }
            None
        },
    }
}

fn named_side(
    entities: &Vec<ExtractedEntity>,
    handle: &Option<String>,
    written: &Option<String>,
) -> (r: Option<String>)
    ensures
        r.deep_view() == side_name(
            entities.deep_view(),
            handle.deep_view(),
            written.deep_view(),
        ),
{
    match bound_name(entities, handle) {
        Some(n) => Some(n),
        None => match written {
            Some(w) => Some(trim_owned(w.as_str())),
            None => None,
        },
    }
}

fn named_subject(entities: &Vec<ExtractedEntity>, f: &ExtractedFact) -> (r: String)
    ensures
        r@ == subject_name(entities.deep_view(), f.deep_view()),
{
    match bound_name(entities, &f.subject_ref) {
        Some(n) => n,
        None => trim_owned(f.subject.as_str()),
    }
}

fn drop_empty(s: Option<String>) -> (r: Option<String>)
    ensures
        r.deep_view() == unless_empty(s.deep_view()),
{
    match s {
        Some(t) => {
            if t.as_str().is_empty() {
                None
            } else {
                Some(t)
            }
        },
        None => None,
    }
}

// ---- One fact ----

/// The facts that one fact becomes, and what was done to it.
pub struct Placed {
    pub facts: Seq<FactView>,
    pub notes: Seq<NormalizationView>,
}

/// The text of a value, where the value is a text.
pub open spec fn written_value(f: FactView) -> Option<Seq<char>> {
    match f.value {
        Some(JsonView::Text(w)) => Some(w),
        _ => None,
    }
}

pub open spec fn quote_of(f: FactView) -> Seq<char> {
    match f.quote {
        Some(q) => q,
        None => Seq::empty(),
    }
}

/// The cut that the quote asks for in a written value.
pub open spec fn cut_in(f: FactView) -> Option<(Seq<char>, Seq<char>)> {
    match written_value(f) {
        Some(w) => tail_of(w, quote_of(f)),
        None => None,
    }
}

/// The fact with its value as the quote holds it.
pub open spec fn grounded(f: FactView) -> FactView {
    match cut_in(f) {
        Some((kept, rest)) => FactView { value: Some(JsonView::Text(kept)), ..f },
        None => f,
    }
}

pub open spec fn cut_notes(f: FactView) -> Seq<NormalizationView> {
    match cut_in(f) {
        Some((kept, dropped)) => seq![
            NormalizationView::ValueTrimmed { predicate: f.predicate, kept, dropped },
        ],
        None => Seq::empty(),
    }
}

pub open spec fn has_value(f: FactView) -> bool {
    f.value matches Some(v) && !(v is Null)
}

/// `predicate.key`, each without white space at its ends.
pub open spec fn dotted(predicate: Seq<char>, key: Seq<char>) -> Seq<char> {
    trimmed(predicate) + "."@ + trimmed(key)
}

/// Each value on the edge as a fact of its own. The predicate carries the key
/// of the attribute where `keyed`.
pub open spec fn spread(
    f: FactView,
    values: Seq<(Seq<char>, JsonView)>,
    keyed: bool,
    valid_from: Option<Seq<char>>,
) -> Seq<FactView> {
    Seq::new(
        values.len(),
        |i: int|
            as_value_fact(
                f,
                if keyed {
                    dotted(f.predicate, values[i].0)
                } else {
                    trimmed(f.predicate)
                },
                values[i].1,
                valid_from,
            ),
    )
}

/// What becomes of a fact whose value is already as the quote holds it.
pub open spec fn place_grounded(entities: Seq<EntityView>, f: FactView) -> Placed {
    let subject = subject_name(entities, f);
    let values = values_on(f);
    let object = object_of(entities, f);
    if contract_time(subject) {
        Placed {
            facts: Seq::empty(),
            notes: seq![
                NormalizationView::TimeAsSubject { predicate: f.predicate, written: subject },
            ],
        }
    } else if object is None && !has_value(f) && values.len() > 0 {
        Placed {
            facts: spread(f, values, true, None),
            notes: seq![
                NormalizationView::QualifiersWithoutObject {
                    predicate: f.predicate,
                    values: values.len() as int,
                },
            ],
        }
    } else if object matches Some(o) && contract_time(o) {
        Placed {
            facts: spread(f, values, values.len() > 1, object),
            notes: seq![
                NormalizationView::TimeAsObject {
                    predicate: f.predicate,
                    written: object->0,
                    values: values.len() as int,
                },
            ],
        }
    } else {
        Placed { facts: seq![f], notes: Seq::empty() }
    }
}

/// What becomes of one fact.
pub open spec fn place(entities: Seq<EntityView>, f: FactView) -> Placed {
    if written_value(f) matches Some(w) && says_nothing(w) {
        Placed {
            facts: Seq::empty(),
            notes: seq![
                NormalizationView::NoValue {
                    predicate: f.predicate,
                    written: written_value(f)->0,
                },
            ],
        }
    } else {
        let placed = place_grounded(entities, grounded(f));
        Placed { facts: placed.facts, notes: cut_notes(f) + placed.notes }
    }
}

/// What becomes of all facts, one after the other.
pub open spec fn place_all(entities: Seq<EntityView>, facts: Seq<FactView>) -> Placed
    decreases facts.len(),
{
    if facts.len() == 0 {
        Placed { facts: Seq::empty(), notes: Seq::empty() }
    } else {
        let before = place_all(entities, facts.drop_last());
        let last = place(entities, facts.last());
        Placed { facts: before.facts + last.facts, notes: before.notes + last.notes }
    }
}

fn dot(predicate: &str, key: &str) -> (r: String)
    ensures
        r@ == dotted(predicate@, key@),
{
    let mut out: String = trim_owned(predicate);
    out.append(".");
    out.append(trim(key));
    out
}

fn spread_values(
    f: &ExtractedFact,
    values: &Vec<Member>,
    keyed: bool,
    valid_from: &Option<String>,
    facts: &mut Vec<ExtractedFact>,
)
    ensures
        final(facts).deep_view() == old(facts).deep_view() + spread(
            f.deep_view(),
            values.deep_view(),
            keyed,
            valid_from.deep_view(),
        ),
{
    let n: usize = values.len();
    let ghost start = facts.deep_view();
    let ghost all = spread(f.deep_view(), values.deep_view(), keyed, valid_from.deep_view());
    for i in 0..n
        invariant
            n == values@.len(),
            all == spread(f.deep_view(), values.deep_view(), keyed, valid_from.deep_view()),
            facts.deep_view() == start + all.take(i as int),
    {
        let ghost before = facts.deep_view();
        let predicate: String = if keyed {
            dot(f.predicate.as_str(), values[i].key.as_str())
        } else {
            trim_owned(f.predicate.as_str())
        };
        facts.push(value_fact(f, predicate, values[i].value.copy(), valid_from.clone()));
        assert(facts.deep_view() =~= before.push(all[i as int]));
        assert(start + all.take(i + 1) =~= before.push(all[i as int]));
    }
    assert(all.take(n as int) =~= all);
}

/// Cuts the tail from a written value. `false` where the value says nothing, so
/// that the fact is not to be placed.
fn ground_value(f: &mut ExtractedFact, out: &mut Vec<Normalization>) -> (r: bool)
    ensures
        r == !(written_value(old(f).deep_view()) matches Some(w) && says_nothing(w)),
        r ==> final(f).deep_view() == grounded(old(f).deep_view()),
        r ==> final(out).deep_view() == old(out).deep_view() + cut_notes(old(f).deep_view()),
        !r ==> final(out).deep_view() == old(out).deep_view().push(
            NormalizationView::NoValue {
                predicate: old(f).deep_view().predicate,
                written: written_value(old(f).deep_view())->0,
            },
        ),
{
    let ghost notes = out.deep_view();
    let ghost was = f.deep_view();
    let written: String = match &f.value {
        Some(Json::Text(w)) => w.clone(),
        _ => {
            assert(out.deep_view() =~= notes + cut_notes(was));
            return true;
        },
    };
    if is_no_value(written.as_str()) {
        out.push(Normalization::NoValue { predicate: f.predicate.clone(), written });
        assert(out.deep_view() =~= notes.push(
            NormalizationView::NoValue {
                predicate: was.predicate,
                written: written_value(was)->0,
            },
        ));
        return false;
    }
    let quote: String = match &f.quote {
        Some(q) => q.clone(),
        None => String::new(),
    };
    if let Some((kept, dropped)) = ungrounded_tail(written.as_str(), quote.as_str()) {
        out.push(
            Normalization::ValueTrimmed {
                predicate: f.predicate.clone(),
                kept: kept.to_owned(),
                dropped: dropped.to_owned(),
            },
        );
        f.value = Some(Json::Text(kept.to_owned()));
    }
    assert(out.deep_view() =~= notes + cut_notes(was));
    true
}

fn place_fact(
    entities: &Vec<ExtractedEntity>,
    fact: ExtractedFact,
    facts: &mut Vec<ExtractedFact>,
    out: &mut Vec<Normalization>,
)
    ensures
        final(facts).deep_view() == old(facts).deep_view() + place(
            entities.deep_view(),
            fact.deep_view(),
        ).facts,
        final(out).deep_view() == old(out).deep_view() + place(
            entities.deep_view(),
            fact.deep_view(),
        ).notes,
{
    let mut f: ExtractedFact = fact;
    let ghost ents = entities.deep_view();
    let ghost was = f.deep_view();
    let ghost notes = out.deep_view();
    let ghost start = facts.deep_view();
    if !ground_value(&mut f, out) {
        assert(out.deep_view() =~= notes + place(ents, was).notes);
        assert(facts.deep_view() =~= start + place(ents, was).facts);
        return ;
    }
    let ghost now = f.deep_view();
    let ghost cut = notes + cut_notes(was);
    let ghost placed = place_grounded(ents, now);
    let subject: String = named_subject(entities, &f);
    if is_contract_time(subject.as_str()) {
        out.push(
            Normalization::TimeAsSubject { predicate: f.predicate.clone(), written: subject },
        );
        assert(out.deep_view() =~= cut.push(placed.notes[0]));
        assert(out.deep_view() =~= notes + place(ents, was).notes);
        assert(facts.deep_view() =~= start + place(ents, was).facts);
        return ;
    }
    let values: Vec<Member> = qualifier_values(&f);
    let object: Option<String> = drop_empty(named_side(entities, &f.object_ref, &f.object));
    let valued: bool = match &f.value {
        Some(v) => !v.is_null(),
        None => false,
    };
    if object.is_none() && !valued && values.len() > 0 {
        spread_values(&f, &values, true, &None, facts);
        out.push(
            Normalization::QualifiersWithoutObject {
                predicate: f.predicate.clone(),
                values: values.len(),
            },
        );
        assert(out.deep_view() =~= cut.push(placed.notes[0]));
        assert(out.deep_view() =~= notes + place(ents, was).notes);
        return ;
    }
    if let Some(o) = &object {
        if is_contract_time(o.as_str()) {
            spread_values(&f, &values, values.len() > 1, &object, facts);
            out.push(
                Normalization::TimeAsObject {
                    predicate: f.predicate.clone(),
                    written: o.clone(),
                    values: values.len(),
                },
            );
            assert(out.deep_view() =~= cut.push(placed.notes[0]));
            assert(out.deep_view() =~= notes + place(ents, was).notes);
            return ;
        }
    }
    facts.push(f);
    assert(facts.deep_view() =~= start.push(now));
    assert(facts.deep_view() =~= start + place(ents, was).facts);
    assert(out.deep_view() =~= notes + place(ents, was).notes);
}

// ---- Descriptions of a declared entity ----

/// No ASCII letter or digit of `outer` is glued to either end of the `inner`
/// that stands at `at`. An end of `inner` that is no such character needs no
/// boundary.
pub open spec fn stands_free(outer: Seq<char>, inner: Seq<char>, at: int) -> bool {
    let end = at + inner.len();
    &&& !(ascii_alphanumeric(inner[0]) && at > 0 && ascii_alphanumeric(outer[at - 1]))
    &&& !(ascii_alphanumeric(inner.last()) && end < outer.len() && ascii_alphanumeric(outer[end]))
}

/// Going through `outer` from `from` on, occurrence after occurrence without
/// overlap, `inner` stands free at one of them.
pub open spec fn found_free(outer: Seq<char>, inner: Seq<char>, from: int) -> bool
    decreases outer.len() - from,
{
    if inner.len() == 0 || from < 0 || from + inner.len() > outer.len() {
        false
    } else if occurs_at(outer, inner, from) {
        stands_free(outer, inner, from) || found_free(outer, inner, from + inner.len())
    } else {
        found_free(outer, inner, from + 1)
    }
}

/// The name `outer` is longer than the name `inner` and wraps it.
pub open spec fn wraps(outer: Seq<char>, inner: Seq<char>) -> bool {
    let (o, i) = (normal_form(outer), normal_form(inner));
    i.len() > 0 && o.len() > i.len() && found_free(o, i, 0)
}

/// The quotes of two facts are of one sentence: one holds the other.
pub open spec fn same_sentence(f: FactView, g: FactView) -> bool {
    let (a, b) = (normal_form(quote_of(f)), normal_form(quote_of(g)));
    holds(a, b) || holds(b, a)
}

/// Fact `j` has the predicate, the subject and the sentence of fact `i`, and
/// goes to `head`.
pub open spec fn same_edge_to(
    entities: Seq<EntityView>,
    facts: Seq<FactView>,
    i: int,
    j: int,
    head: Seq<char>,
) -> bool {
    &&& j != i
    &&& same_ignoring_ascii_case(facts[j].predicate, facts[i].predicate)
    &&& subject_of(entities, facts[j]) == subject_of(entities, facts[i])
    &&& object_of(entities, facts[j]) matches Some(o) && same_ignoring_ascii_case(o, head)
    &&& same_sentence(facts[i], facts[j])
}

/// Fact `i` only describes `head`: its object wraps that name, and the edge to
/// the entity itself stands beside it.
pub open spec fn describes(
    entities: Seq<EntityView>,
    facts: Seq<FactView>,
    i: int,
    head: Seq<char>,
) -> bool {
    &&& object_of(entities, facts[i]) matches Some(name) && wraps(name, head)
    &&& exists|j: int|
        0 <= j < facts.len() && #[trigger] same_edge_to(entities, facts, i, j, head)
}

/// The first declared entity from `k` on that fact `i` only describes.
pub open spec fn head_from(
    entities: Seq<EntityView>,
    facts: Seq<FactView>,
    i: int,
    k: int,
) -> Option<Seq<char>>
    decreases entities.len() - k,
{
    if k >= entities.len() {
        None
    } else if describes(entities, facts, i, trimmed(entities[k].name)) {
        Some(trimmed(entities[k].name))
    } else {
        head_from(entities, facts, i, k + 1)
    }
}

pub open spec fn head_of(entities: Seq<EntityView>, facts: Seq<FactView>, i: int) -> Option<
    Seq<char>,
> {
    head_from(entities, facts, i, 0)
}

/// Of the first `n` facts, those that describe nothing declared.
pub open spec fn undescribing(entities: Seq<EntityView>, facts: Seq<FactView>, n: int) -> Seq<
    FactView,
>
    decreases n,
{
    if n <= 0 {
        Seq::empty()
    } else if head_of(entities, facts, n - 1) is None {
        undescribing(entities, facts, n - 1).push(facts[n - 1])
    } else {
        undescribing(entities, facts, n - 1)
    }
}

/// What is said of the others among the first `n` facts.
pub open spec fn description_notes(
    entities: Seq<EntityView>,
    facts: Seq<FactView>,
    n: int,
) -> Seq<NormalizationView>
    decreases n,
{
    if n <= 0 {
        Seq::empty()
    } else {
        let before = description_notes(entities, facts, n - 1);
        match head_of(entities, facts, n - 1) {
            Some(head) => before.push(
                NormalizationView::ObjectDescribesDeclared {
                    predicate: facts[n - 1].predicate,
                    name: object_of(entities, facts[n - 1])->0,
                    head,
                },
            ),
            None => before,
        }
    }
}

fn is_free_at(outer: &Vec<char>, inner: &Vec<char>, at: usize) -> (r: bool)
    requires
        inner@.len() > 0,
        at + inner@.len() <= outer@.len(),
    ensures
        r == stands_free(outer@, inner@, at as int),
{
    let size: usize = outer.len();
    let end: usize = at + inner.len();
    let glued_in: bool = is_ascii_alphanumeric(inner[0]) && at > 0 && is_ascii_alphanumeric(
        outer[at - 1],
    );
    let glued_out: bool = is_ascii_alphanumeric(inner[inner.len() - 1]) && end < size
        && is_ascii_alphanumeric(outer[end]);
    !glued_in && !glued_out
}

/// The name `outer` is longer than the name `inner` and wraps it.
pub fn contains_name(outer: &str, inner: &str) -> (r: bool)
    ensures
        r == wraps(outer@, inner@),
{
    let o: Vec<char> = chars_of(norm(outer).as_str());
    let x: Vec<char> = chars_of(norm(inner).as_str());
    let n: usize = x.len();
    if n == 0 || o.len() <= n {
        return false;
    }
    let last: usize = o.len() - n;
    let mut from: usize = 0;
    while from <= last
        invariant
            o@ == normal_form(outer@),
            x@ == normal_form(inner@),
            n == x@.len(),
            n > 0,
            o@.len() > n,
            last == o.len() - n,
            from <= o.len(),
            found_free(o@, x@, 0) == found_free(o@, x@, from as int),
        decreases o.len() - from,
    {
        if stands_at(&o, &x, from) {
            if is_free_at(&o, &x, from) {
                return true;
            }
            from = from + n;
        } else {
            from = from + 1;
        }
    }
    false
}

fn norm_quote(f: &ExtractedFact) -> (r: String)
    ensures
        r@ == normal_form(quote_of(f.deep_view())),
{
    match &f.quote {
        Some(q) => norm(q.as_str()),
        None => norm(String::new().as_str()),
    }
}

fn has_same_edge(
    entities: &Vec<ExtractedEntity>,
    facts: &Vec<ExtractedFact>,
    subjects: &Vec<Option<String>>,
    objects: &Vec<Option<String>>,
    i: usize,
    head: &str,
) -> (r: bool)
    requires
        i < facts@.len(),
        subjects@.len() == facts@.len(),
        objects@.len() == facts@.len(),
        forall|k: int|
            0 <= k < facts@.len() ==> (#[trigger] subjects@[k]).deep_view() == subject_of(
                entities.deep_view(),
                facts@[k].deep_view(),
            ),
        forall|k: int|
            0 <= k < facts@.len() ==> (#[trigger] objects@[k]).deep_view() == object_of(
                entities.deep_view(),
                facts@[k].deep_view(),
            ),
    ensures
        r == exists|j: int|
            0 <= j < facts@.len() && #[trigger] same_edge_to(
                entities.deep_view(),
                facts.deep_view(),
                i as int,
                j,
                head@,
            ),
{
    let n: usize = facts.len();
    let quote_i: String = norm_quote(&facts[i]);
    let ghost ents = entities.deep_view();
    let ghost all = facts.deep_view();
    for j in 0..n
        invariant
            n == facts@.len(),
            i < n,
            ents == entities.deep_view(),
            all == facts.deep_view(),
            subjects@.len() == n,
            objects@.len() == n,
            forall|k: int|
                0 <= k < n ==> (#[trigger] subjects@[k]).deep_view() == subject_of(
                    ents,
                    facts@[k].deep_view(),
                ),
            forall|k: int|
                0 <= k < n ==> (#[trigger] objects@[k]).deep_view() == object_of(
                    ents,
                    facts@[k].deep_view(),
                ),
            quote_i@ == normal_form(quote_of(all[i as int])),
            forall|k: int| 0 <= k < j ==> !#[trigger] same_edge_to(ents, all, i as int, k, head@),
    {
        proof {
            assert(all[j as int] == facts@[j as int].deep_view());
            assert(all[i as int] == facts@[i as int].deep_view());
            assert(subjects@[j as int].deep_view() == subject_of(ents, all[j as int]));
            assert(subjects@[i as int].deep_view() == subject_of(ents, all[i as int]));
            assert(objects@[j as int].deep_view() == object_of(ents, all[j as int]));
        }
        let to_head: bool = match &objects[j] {
            Some(o) => eq_ignore_ascii_case(o.as_str(), head),
            None => false,
        };
        if j != i && to_head && eq_ignore_ascii_case(
            facts[j].predicate.as_str(),
            facts[i].predicate.as_str(),
        ) && same_option(&subjects[j], &subjects[i]) {
            let quote_j: String = norm_quote(&facts[j]);
            if contains(quote_i.as_str(), quote_j.as_str()) || contains(
                quote_j.as_str(),
                quote_i.as_str(),
            ) {
                assert(same_edge_to(ents, all, i as int, j as int, head@));
                return true;
            }
        }
        assert(!same_edge_to(ents, all, i as int, j as int, head@));
    }
    false
}

/// The declared name that fact `i` only describes.
fn find_head(
    entities: &Vec<ExtractedEntity>,
    facts: &Vec<ExtractedFact>,
    subjects: &Vec<Option<String>>,
    objects: &Vec<Option<String>>,
    i: usize,
) -> (r: Option<String>)
    requires
        i < facts@.len(),
        subjects@.len() == facts@.len(),
        objects@.len() == facts@.len(),
        forall|k: int|
            0 <= k < facts@.len() ==> (#[trigger] subjects@[k]).deep_view() == subject_of(
                entities.deep_view(),
                facts@[k].deep_view(),
            ),
        forall|k: int|
            0 <= k < facts@.len() ==> (#[trigger] objects@[k]).deep_view() == object_of(
                entities.deep_view(),
                facts@[k].deep_view(),
            ),
    ensures
        r.deep_view() == head_of(entities.deep_view(), facts.deep_view(), i as int),
{
    let ghost ents = entities.deep_view();
    let ghost all = facts.deep_view();
    let n: usize = entities.len();
    assert(all[i as int] == facts@[i as int].deep_view());
    assert(objects@[i as int].deep_view() == object_of(ents, all[i as int]));
    let mut k: usize = 0;
    while k < n
        invariant
            k <= n,
            n == entities@.len(),
            ents == entities.deep_view(),
            all == facts.deep_view(),
            i < facts@.len(),
            subjects@.len() == facts@.len(),
            objects@.len() == facts@.len(),
            objects@[i as int].deep_view() == object_of(ents, all[i as int]),
            forall|k: int|
                0 <= k < facts@.len() ==> (#[trigger] subjects@[k]).deep_view() == subject_of(
                    ents,
                    facts@[k].deep_view(),
                ),
            forall|k: int|
                0 <= k < facts@.len() ==> (#[trigger] objects@[k]).deep_view() == object_of(
                    ents,
                    facts@[k].deep_view(),
                ),
            head_of(ents, all, i as int) == head_from(ents, all, i as int, k as int),
        decreases n - k,
    {
        assert(ents[k as int] == entities@[k as int].deep_view());
        if let Some(name) = &objects[i] {
            let h: &str = trim(entities[k].name.as_str());
            if contains_name(name.as_str(), h) && has_same_edge(
                entities,
                facts,
                subjects,
                objects,
                i,
                h,
            ) {
                return Some(h.to_owned());
            }
        }
        k = k + 1;
    }
    None
}

/// Marks the facts that only describe a declared entity, and says so.
fn mark_descriptions(
    entities: &Vec<ExtractedEntity>,
    facts: &Vec<ExtractedFact>,
    out: &mut Vec<Normalization>,
) -> (keep: Vec<bool>)
    ensures
        keep@.len() == facts@.len(),
        forall|i: int|
            0 <= i < keep@.len() ==> #[trigger] keep@[i] == (head_of(
                entities.deep_view(),
                facts.deep_view(),
                i,
            ) is None),
        final(out).deep_view() == old(out).deep_view() + description_notes(
            entities.deep_view(),
            facts.deep_view(),
            facts@.len() as int,
        ),
{
    let n: usize = facts.len();
    let ghost ents = entities.deep_view();
    let ghost all = facts.deep_view();
    let ghost start = out.deep_view();
    let mut subjects: Vec<Option<String>> = Vec::new();
    let mut objects: Vec<Option<String>> = Vec::new();
    for i in 0..n
        invariant
            n == facts@.len(),
            ents == entities.deep_view(),
            subjects@.len() == i,
            objects@.len() == i,
            forall|k: int|
                0 <= k < i ==> (#[trigger] subjects@[k]).deep_view() == subject_of(
                    ents,
                    facts@[k].deep_view(),
                ),
            forall|k: int|
                0 <= k < i ==> (#[trigger] objects@[k]).deep_view() == object_of(
                    ents,
                    facts@[k].deep_view(),
                ),
    {
        subjects.push(drop_empty(Some(named_subject(entities, &facts[i]))));
        objects.push(drop_empty(named_side(entities, &facts[i].object_ref, &facts[i].object)));
    }
    let mut keep: Vec<bool> = Vec::new();
    assert(start + description_notes(ents, all, 0) =~= start);
    for i in 0..n
        invariant
            n == facts@.len(),
            ents == entities.deep_view(),
            all == facts.deep_view(),
            subjects@.len() == n,
            objects@.len() == n,
            keep@.len() == i,
            forall|k: int|
                0 <= k < n ==> (#[trigger] subjects@[k]).deep_view() == subject_of(
                    ents,
                    facts@[k].deep_view(),
                ),
            forall|k: int|
                0 <= k < n ==> (#[trigger] objects@[k]).deep_view() == object_of(
                    ents,
                    facts@[k].deep_view(),
                ),
            forall|k: int| 0 <= k < i ==> #[trigger] keep@[k] == (head_of(ents, all, k) is None),
            out.deep_view() == start + description_notes(ents, all, i as int),
    {
        let ghost before = out.deep_view();
        assert(all[i as int] == facts@[i as int].deep_view());
        assert(objects@[i as int].deep_view() == object_of(ents, all[i as int]));
        let found: Option<String> = find_head(entities, facts, &subjects, &objects, i);
        match found {
            Some(head) => {
                proof {
                    lemma_head_has_object(ents, all, i as int, 0);
                }
                if let Some(name) = &objects[i] {
                    let note = Normalization::ObjectDescribesDeclared {
                        predicate: facts[i].predicate.clone(),
                        name: name.clone(),
                        head,
                    };
                    let ghost said = note.deep_view();
                    out.push(note);
                    assert(out.deep_view() =~= before.push(said));
                }
                keep.push(false);
                assert(out.deep_view() =~= start + description_notes(ents, all, i + 1));
            },
            None => {
                keep.push(true);
            },
        }
    }
    keep
}

proof fn lemma_head_has_object(
    entities: Seq<EntityView>,
    facts: Seq<FactView>,
    i: int,
    k: int,
)
    ensures
        head_from(entities, facts, i, k) is Some ==> object_of(entities, facts[i]) is Some,
    decreases entities.len() - k,
{
    if k < entities.len() {
        lemma_head_has_object(entities, facts, i, k + 1);
    }
}

fn keep_marked(
    facts: Vec<ExtractedFact>,
    keep: &Vec<bool>,
    Ghost(entities): Ghost<Seq<EntityView>>,
) -> (r: Vec<ExtractedFact>)
    requires
        keep@.len() == facts@.len(),
        forall|i: int|
            0 <= i < keep@.len() ==> #[trigger] keep@[i] == (head_of(
                entities,
                facts.deep_view(),
                i,
            ) is None),
    ensures
        r.deep_view() == undescribing(entities, facts.deep_view(), facts@.len() as int),
{
    let ghost all = facts.deep_view();
    let ghost given = facts@;
    let n: usize = keep.len();
    let mut out: Vec<ExtractedFact> = Vec::new();
    let mut i: usize = 0;
    assert(out.deep_view() =~= undescribing(entities, all, 0));
    for f in it: facts
        invariant
            it.seq() == given,
            i == it.index(),
            n == keep@.len(),
            keep@.len() == given.len(),
            all.len() == given.len(),
            forall|k: int| 0 <= k < given.len() ==> #[trigger] all[k] == given[k].deep_view(),
            forall|k: int|
                0 <= k < keep@.len() ==> #[trigger] keep@[k] == (head_of(
                    entities,
                    all,
                    k,
                ) is None),
            out.deep_view() == undescribing(entities, all, i as int),
    {
        let ghost before = out.deep_view();
        assert(i < n);
        assert(all[i as int] == f.deep_view());
        if keep[i] {
            out.push(f);
            assert(out.deep_view() =~= before.push(all[i as int]));
        }
        i = i + 1;
    }
    out
}

// ---- Declarations that nothing refers to any more ----

/// A side of the fact is called `name`, in lower case.
pub open spec fn refers_to(entities: Seq<EntityView>, f: FactView, name: Seq<char>) -> bool {
    ||| lowercase(subject_name(entities, f)) == name
    ||| object_name(entities, f) matches Some(o) && lowercase(o) == name
}

pub open spec fn referred_to(
    entities: Seq<EntityView>,
    facts: Seq<FactView>,
    name: Seq<char>,
) -> bool {
    exists|k: int| 0 <= k < facts.len() && refers_to(entities, #[trigger] facts[k], name)
}

/// Facts referred to the entity before, and none does after.
pub open spec fn orphaned(
    entities: Seq<EntityView>,
    before: Seq<FactView>,
    after: Seq<FactView>,
) -> spec_fn(EntityView) -> bool {
    |e: EntityView|
        {
            let name = lowercase(trimmed(e.name));
            referred_to(entities, before, name) && !referred_to(entities, after, name)
        }
}

pub open spec fn still_held(
    entities: Seq<EntityView>,
    before: Seq<FactView>,
    after: Seq<FactView>,
) -> spec_fn(EntityView) -> bool {
    |e: EntityView| !orphaned(entities, before, after)(e)
}

pub open spec fn orphan_note() -> spec_fn(EntityView) -> NormalizationView {
    |e: EntityView| NormalizationView::OrphanDeclaration { name: trimmed(e.name) }
}

/// The lower-case names that the facts refer to.
fn referenced(entities: &Vec<ExtractedEntity>, facts: &Vec<ExtractedFact>) -> (r: Vec<String>)
    ensures
        forall|name: Seq<char>| #[trigger]
            r.deep_view().contains(name) <==> referred_to(
                entities.deep_view(),
                facts.deep_view(),
                name,
            ),
{
    let ghost ents = entities.deep_view();
    let ghost all = facts.deep_view();
    let n: usize = facts.len();
    let mut out: Vec<String> = Vec::new();
    for i in 0..n
        invariant
            n == facts@.len(),
            ents == entities.deep_view(),
            all == facts.deep_view(),
            forall|name: Seq<char>| #[trigger]
                out.deep_view().contains(name) <==> referred_to(ents, all.take(i as int), name),
    {
        let ghost before = out.deep_view();
        let ghost was = all.take(i as int);
        let ghost now = all.take(i + 1);
        let ghost f = all[i as int];
        assert(f == facts@[i as int].deep_view());
        let subject: String = named_subject(entities, &facts[i]).as_str().to_lowercase();
        let ghost s = subject@;
        out.push(subject);
        assert(out.deep_view() =~= before.push(s));
        if let Some(o) = named_side(entities, &facts[i].object_ref, &facts[i].object) {
            let ghost mid = out.deep_view();
            let object: String = o.as_str().to_lowercase();
            let ghost t = object@;
            out.push(object);
            assert(out.deep_view() =~= mid.push(t));
        }
        proof {
            let held = out.deep_view();
            assert forall|name: Seq<char>| #[trigger]
                held.contains(name) <==> referred_to(ents, now, name) by {
                assert(now =~= was.push(f));
                if held.contains(name) {
                    let k = held.index_of(name);
                    if k < before.len() {
                        assert(before[k] == name);
                        assert(before.contains(name));
                        let j = choose|j: int|
                            0 <= j < was.len() && refers_to(ents, #[trigger] was[j], name);
                        assert(now[j] == was[j]);
                    } else {
                        assert(refers_to(ents, now[i as int], name));
                    }
                }
                if referred_to(ents, now, name) {
                    let j = choose|j: int|
                        0 <= j < now.len() && refers_to(ents, #[trigger] now[j], name);
                    if j < i {
                        assert(was[j] == now[j]);
                        assert(before.contains(name));
                        let k = before.index_of(name);
                        assert(held[k] == name);
                    } else if lowercase(subject_name(ents, f)) == name {
                        assert(held[before.len() as int] == name);
                    } else {
                        assert(held[before.len() as int + 1] == name);
                    }
                }
            }
        }
    }
    assert(all.take(n as int) =~= all);
    out
}

/// Drops the orphans from the declared entities, and says which they were.
fn drop_orphans(
    entities: Vec<ExtractedEntity>,
    before: &Vec<String>,
    after: &Vec<String>,
    out: &mut Vec<Normalization>,
    Ghost(were): Ghost<Seq<FactView>>,
    Ghost(are): Ghost<Seq<FactView>>,
) -> (r: Vec<ExtractedEntity>)
    requires
        forall|name: Seq<char>| #[trigger]
            before.deep_view().contains(name) <==> referred_to(
                entities.deep_view(),
                were,
                name,
            ),
        forall|name: Seq<char>| #[trigger]
            after.deep_view().contains(name) <==> referred_to(entities.deep_view(), are, name),
    ensures
        r.deep_view() == entities.deep_view().filter(
            still_held(entities.deep_view(), were, are),
        ),
        final(out).deep_view() == old(out).deep_view() + entities.deep_view().filter(
            orphaned(entities.deep_view(), were, are),
        ).map_values(orphan_note()),
{
    let ghost all = entities.deep_view();
    let ghost given = entities@;
    let ghost gone = orphaned(all, were, are);
    let ghost stays = still_held(all, were, are);
    let ghost start = out.deep_view();
    let mut kept: Vec<ExtractedEntity> = Vec::new();
    proof {
        reveal(Seq::filter);
        assert(all.take(0) =~= Seq::empty());
        assert(kept.deep_view() =~= all.take(0).filter(stays));
        assert(out.deep_view() =~= start + all.take(0).filter(gone).map_values(orphan_note()));
    }
    for e in it: entities
        invariant
            it.seq() == given,
            all.len() == given.len(),
            forall|k: int| 0 <= k < given.len() ==> #[trigger] all[k] == given[k].deep_view(),
            gone == orphaned(all, were, are),
            stays == still_held(all, were, are),
            forall|name: Seq<char>| #[trigger]
                before.deep_view().contains(name) <==> referred_to(all, were, name),
            forall|name: Seq<char>| #[trigger]
                after.deep_view().contains(name) <==> referred_to(all, are, name),
            kept.deep_view() == all.take(it.index() as int).filter(stays),
            out.deep_view() == start + all.take(it.index() as int).filter(gone).map_values(
                orphan_note(),
            ),
    {
        let ghost i = it.index() as int;
        let ghost was = kept.deep_view();
        let ghost said = out.deep_view();
        proof {
            assert(all[i] == e.deep_view());
            assert(all.take(i + 1).drop_last() =~= all.take(i));
            reveal(Seq::filter);
        }
        let trimmed_name: &str = trim(e.name.as_str());
        let name: String = trimmed_name.to_lowercase();
        if is_among(before, name.as_str()) && !is_among(after, name.as_str()) {
            let ghost sofar = all.take(i).filter(gone);
            out.push(Normalization::OrphanDeclaration { name: trimmed_name.to_owned() });
            proof {
                assert(gone(all[i]));
                assert(out.deep_view() =~= said.push(orphan_note()(all[i])));
                assert(sofar.push(all[i]).map_values(orphan_note()) =~= sofar.map_values(
                    orphan_note(),
                ).push(orphan_note()(all[i])));
                assert(out.deep_view() =~= start + sofar.push(all[i]).map_values(
                    orphan_note(),
                ));
            }
        } else {
            kept.push(e);
            assert(kept.deep_view() =~= was.push(all[i]));
        }
    }
    assert(all.take(given.len() as int) =~= all);
    kept
}

// ---- All of it ----

/// The facts that stay, of those that the first rules placed.
pub open spec fn facts_after(x: ExtractionView) -> Seq<FactView> {
    let placed = place_all(x.entities, x.facts).facts;
    undescribing(x.entities, placed, placed.len() as int)
}

/// The extraction in the agreed shape.
pub open spec fn normalized(x: ExtractionView) -> ExtractionView {
    ExtractionView {
        entities: x.entities.filter(still_held(x.entities, x.facts, facts_after(x))),
        facts: facts_after(x),
        ..x
    }
}

/// What was done to bring the extraction into the agreed shape, in order.
pub open spec fn notes_on(x: ExtractionView) -> Seq<NormalizationView> {
    let placed = place_all(x.entities, x.facts);
    placed.notes + description_notes(x.entities, placed.facts, placed.facts.len() as int)
        + x.entities.filter(orphaned(x.entities, x.facts, facts_after(x))).map_values(
        orphan_note(),
    )
}

/// Places every fact of the list.
fn place_facts(
    entities: &Vec<ExtractedEntity>,
    facts: Vec<ExtractedFact>,
    out: &mut Vec<Normalization>,
) -> (r: Vec<ExtractedFact>)
    requires
        old(out)@.len() == 0,
    ensures
        r.deep_view() == place_all(entities.deep_view(), facts.deep_view()).facts,
        final(out).deep_view() == place_all(entities.deep_view(), facts.deep_view()).notes,
{
    let ghost ents = entities.deep_view();
    let ghost all = facts.deep_view();
    let ghost given = facts@;
    let mut placed: Vec<ExtractedFact> = Vec::new();
    proof {
        assert(all.take(0) =~= Seq::empty());
        assert(placed.deep_view() =~= place_all(ents, all.take(0)).facts);
        assert(out.deep_view() =~= place_all(ents, all.take(0)).notes);
    }
    for f in it: facts
        invariant
            it.seq() == given,
            all.len() == given.len(),
            forall|k: int| 0 <= k < given.len() ==> #[trigger] all[k] == given[k].deep_view(),
            ents == entities.deep_view(),
            placed.deep_view() == place_all(ents, all.take(it.index() as int)).facts,
            out.deep_view() == place_all(ents, all.take(it.index() as int)).notes,
    {
        proof {
            let i = it.index() as int;
            assert(all[i] == f.deep_view());
            assert(all.take(i + 1).drop_last() =~= all.take(i));
        }
        place_fact(entities, f, &mut placed, out);
    }
    assert(all.take(given.len() as int) =~= all);
    placed
}

/// Brings an extraction into the agreed shape, and reports everything that was
/// done to it.
pub fn normalize_facts(x: &mut Extraction) -> (r: Vec<Normalization>)
    ensures
        final(x).deep_view() == normalized(old(x).deep_view()),
        r.deep_view() == notes_on(old(x).deep_view()),
{
    let ghost was = x.deep_view();
    let mut entities: Vec<ExtractedEntity> = Vec::new();
    std::mem::swap(&mut entities, &mut x.entities);
    let mut given: Vec<ExtractedFact> = Vec::new();
    std::mem::swap(&mut given, &mut x.facts);
    let mut out: Vec<Normalization> = Vec::new();
    let before: Vec<String> = referenced(&entities, &given);
    let placed: Vec<ExtractedFact> = place_facts(&entities, given, &mut out);
    let keep: Vec<bool> = mark_descriptions(&entities, &placed, &mut out);
    let facts: Vec<ExtractedFact> = keep_marked(placed, &keep, Ghost(was.entities));
    let after: Vec<String> = referenced(&entities, &facts);
    x.facts = facts;
    x.entities = drop_orphans(
        entities,
        &before,
        &after,
        &mut out,
        Ghost(was.facts),
        Ghost(facts_after(was)),
    );
    out
}

} // verus!
