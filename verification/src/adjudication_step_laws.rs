//! Laws of what a ruling leads to, step by step, and of the key under which it is
//! kept.

use vstd::prelude::*;
use vstd::utf8::encode_utf8;

use crate::adjudication::{
    first_step, key_of, key_text, sha256, side_text, step_after_impact, step_after_merge,
    AuditView, StepView,
};
use crate::error::AppError;
use crate::json::{has_member, has_members, JsonView};
use crate::review::{ItemView, RulingView, SideView};
use crate::single::Single;
use crate::strings::{joined, lemma_no_later_total, lowercase, no_later};
use crate::strings_laws::law_hexadecimal_tells_bytes_apart;

verus! {

// ---- Steps ----

/// The ruling says which, with a confidence of 0.8 or more.
pub open spec fn decides(ruling: RulingView) -> bool {
    ruling.same is Some && ruling.confidence.reaches(Single { bits: 0x3f4c_cccd })
}

/// Ten pairs out of a hundred, by their identifiers, are for people.
pub open spec fn for_people(item: ItemView) -> bool {
    item.id % 100 < 10
}

/// The entry of the ledger is about the pair and tells its names, its score, the
/// confidence and the reason of the ruling, and where that came from.
pub open spec fn tells_of(
    audit: AuditView,
    action: Seq<char>,
    item: ItemView,
    ruling: RulingView,
    via: Seq<char>,
) -> bool {
    &&& audit.action == action
    &&& audit.review_id == item.id
    &&& has_members(audit.detail, 6)
    &&& has_member(audit.detail, "left"@, JsonView::Text(item.left.name))
    &&& has_member(audit.detail, "right"@, JsonView::Text(item.right.name))
    &&& has_member(audit.detail, "score"@, item.score)
    &&& has_member(audit.detail, "confidence"@, JsonView::Single(ruling.confidence))
    &&& has_member(audit.detail, "via"@, JsonView::Text(via))
    &&& has_member(
        audit.detail,
        "why"@,
        match ruling.why {
            Some(w) => JsonView::Text(w),
            None => JsonView::Null,
        },
    )
}

/// A ruling that does not decide goes to a person, and so does one on a pair that
/// is for people, with the reason. Any other ruling of `same` is held against what
/// the merge would do to the two entities of the pair, and one of `different`
/// closes the pair as kept apart and tells the ledger so.
pub proof fn law_a_ruling_is_carried_out_as_it_says(
    item: ItemView,
    ruling: RulingView,
    via: Seq<char>,
    shown: Seq<char>,
)
    ensures
        ({
            let step = first_step(item, ruling, via, shown);
            &&& !decides(ruling) ==> step == (StepView::Escalate {
                review_id: item.id,
                reason: "escalate_unsure|"@ + via + " "@ + shown,
            })
            &&& decides(ruling) && for_people(item) && ruling.same == Some(true) ==> step == (
            StepView::Escalate {
                review_id: item.id,
                reason: "escalate_sample|"@ + "same"@ + " "@ + shown,
            })
            &&& decides(ruling) && for_people(item) && ruling.same == Some(false) ==> step == (
            StepView::Escalate {
                review_id: item.id,
                reason: "escalate_sample|"@ + "different"@ + " "@ + shown,
            })
            &&& decides(ruling) && !for_people(item) && ruling.same == Some(true) ==> step == (
            StepView::CheckImpact { left: item.left.id, right: item.right.id })
            &&& decides(ruling) && !for_people(item) && ruling.same == Some(false) ==> (step matches
                StepView::Close { review_id, status, reason, audit } && {
                &&& review_id == item.id
                &&& status == "kept"@
                &&& reason == "kept_apart|"@ + via + " "@ + shown
                &&& tells_of(audit, "review.keep"@, item, ruling, via)
            })
        }),
{
    if let StepView::Close { audit, .. } = first_step(item, ruling, via, shown) {
        let m = audit.detail->Object_0;
        lemma_detail(m);
    }
}

proof fn lemma_detail(m: Seq<(Seq<char>, JsonView)>)
    requires
        m.len() == 6,
    ensures
        forall|i: int| 0 <= i < 6 ==> has_member(JsonView::Object(m), (#[trigger] m[i]).0, m[i].1),
{
    assert forall|i: int| 0 <= i < 6 implies has_member(
        JsonView::Object(m),
        (#[trigger] m[i]).0,
        m[i].1,
    ) by {
        let j = JsonView::Object(m);
        assert(j->Object_0 == m);
        assert(j->Object_0[i] == (m[i].0, m[i].1));
    }
}

/// A merge that is held goes to a person with what holds it; any other is made of
/// the two entities of the pair.
pub proof fn law_a_merge_is_of_the_pair(
    item: ItemView,
    hold: Option<Seq<char>>,
    via: Seq<char>,
    shown: Seq<char>,
)
    ensures
        hold matches Some(h) ==> step_after_impact(item, hold, via, shown) == (
        StepView::Escalate { review_id: item.id, reason: "escalate_impact|"@ + h }),
        hold is None ==> step_after_impact(item, hold, via, shown) == (StepView::Merge {
            left: item.left.id,
            right: item.right.id,
            reason: "auto_merged|"@ + via + " "@ + shown,
        }),
{
}

/// After the merge the pair is closed as merged, and the ledger told; where one of
/// the entities has gone or changed the pair goes to a person, and any other error
/// is passed on as it is.
pub proof fn law_a_merge_closes_the_pair(
    item: ItemView,
    ruling: RulingView,
    via: Seq<char>,
    shown: Seq<char>,
    merged: Result<u128, AppError>,
)
    ensures
        ({
            let step = step_after_merge(item, ruling, via, shown, merged);
            &&& merged is Ok ==> (step matches StepView::Close {
                review_id,
                status,
                reason,
                audit,
            } && {
                &&& review_id == item.id
                &&& status == "merged"@
                &&& reason == "auto_merged|"@ + via + " "@ + shown
                &&& tells_of(audit, "review.merge"@, item, ruling, via)
            })
            &&& merged matches Err(e) ==> {
                &&& e is Conflict || e is NotFound ==> step == (StepView::Escalate {
                    review_id: item.id,
                    reason: "escalate_entity_changed"@,
                })
                &&& e !is Conflict && e !is NotFound ==> step == StepView::Fail(e)
            }
        }),
{
    if let StepView::Close { audit, .. } = step_after_merge(item, ruling, via, shown, merged) {
        let m = audit.detail->Object_0;
        lemma_detail(m);
    }
}

// ---- The key ----

/// A character does not stand in a text.
pub open spec fn lacks(s: Seq<char>, c: char) -> bool {
    forall|i: int| 0 <= i < s.len() ==> #[trigger] s[i] != c
}

proof fn lemma_parts(a: Seq<char>, b: Seq<char>, c: Seq<char>, d: Seq<char>, sep: char)
    requires
        lacks(a, sep),
        lacks(c, sep),
        a + seq![sep] + b == c + seq![sep] + d,
    ensures
        a == c,
        b == d,
{
    let x = a + seq![sep] + b;
    let y = c + seq![sep] + d;
    assert(x[a.len() as int] == sep);
    assert(y[c.len() as int] == sep);
    if a.len() < c.len() {
        assert(y[a.len() as int] == c[a.len() as int]);
    }
    if c.len() < a.len() {
        assert(x[c.len() as int] == a[c.len() as int]);
    }
    let n = a.len() as int;
    assert(a =~= x.take(n));
    assert(c =~= y.take(n));
    assert(b =~= x.skip(n + 1));
    assert(d =~= y.skip(n + 1));
}

/// What the key says of a side changes with its name, whatever the case of the
/// letters, with its type and with its facts, as long as no bar stands in the first
/// two.
pub proof fn law_the_key_knows_name_type_and_facts(s: SideView, t: SideView)
    requires
        lacks(lowercase(s.name), '|'),
        lacks(lowercase(t.name), '|'),
        s.type_label matches Some(l) ==> lacks(l, '|'),
        t.type_label matches Some(l) ==> lacks(l, '|'),
    ensures
        side_text(s) == side_text(t) <==> {
            let x = match s.type_label {
                Some(l) => l,
                None => "untyped"@,
            };
            let y = match t.type_label {
                Some(l) => l,
                None => "untyped"@,
            };
            &&& lowercase(s.name) == lowercase(t.name)
            &&& x == y
            &&& joined(s.top_facts, ";"@) == joined(t.top_facts, ";"@)
        },
{
    reveal_strlit("|");
    reveal_strlit("untyped");
    assert("|"@ =~= seq!['|']);
    let x = match s.type_label {
        Some(l) => l,
        None => "untyped"@,
    };
    let y = match t.type_label {
        Some(l) => l,
        None => "untyped"@,
    };
    let (f, g) = (joined(s.top_facts, ";"@), joined(t.top_facts, ";"@));
    let (m, n) = (x + seq!['|'] + f, y + seq!['|'] + g);
    assert(side_text(s) =~= lowercase(s.name) + seq!['|'] + m);
    assert(side_text(t) =~= lowercase(t.name) + seq!['|'] + n);
    if side_text(s) == side_text(t) {
        lemma_parts(lowercase(s.name), m, lowercase(t.name), n, '|');
        lemma_parts(x, f, y, g, '|');
    }
}

proof fn lemma_key_parts(
    a: Seq<char>,
    b: Seq<char>,
    p: Seq<char>,
    c: Seq<char>,
    d: Seq<char>,
    q: Seq<char>,
)
    requires
        lacks(a, '#'),
        lacks(b, '#'),
        lacks(c, '#'),
        lacks(d, '#'),
        a + "##"@ + b + "##"@ + p == c + "##"@ + d + "##"@ + q,
    ensures
        a == c,
        b == d,
        p == q,
{
    reveal_strlit("##");
    let (x, y) = (b + "##"@ + p, d + "##"@ + q);
    assert(a + "##"@ + b + "##"@ + p =~= a + seq!['#'] + (seq!['#'] + x));
    assert(c + "##"@ + d + "##"@ + q =~= c + seq!['#'] + (seq!['#'] + y));
    lemma_parts(a, seq!['#'] + x, c, seq!['#'] + y, '#');
    assert(x =~= (seq!['#'] + x).skip(1));
    assert(y =~= (seq!['#'] + y).skip(1));
    assert(x =~= b + seq!['#'] + (seq!['#'] + p));
    assert(y =~= d + seq!['#'] + (seq!['#'] + q));
    lemma_parts(b, seq!['#'] + p, d, seq!['#'] + q, '#');
    assert(p =~= (seq!['#'] + p).skip(1));
    assert(q =~= (seq!['#'] + q).skip(1));
}

/// The text under the key is that of another pair or of other precedents only where
/// it is another text: two pairs share it exactly where their sides are the same,
/// either way round, and so are the precedents, as long as no number sign stands in
/// what is said of the sides.
pub proof fn law_the_key_text_tells_pairs_apart(
    x: ItemView,
    y: ItemView,
    before: Seq<Seq<char>>,
    after: Seq<Seq<char>>,
)
    requires
        lacks(side_text(x.left), '#'),
        lacks(side_text(x.right), '#'),
        lacks(side_text(y.left), '#'),
        lacks(side_text(y.right), '#'),
    ensures
        key_text(x, before) == key_text(y, after) <==> {
            &&& joined(before, "\n"@) == joined(after, "\n"@)
            &&& ({
                ||| side_text(x.left) == side_text(y.left) && side_text(x.right) == side_text(
                    y.right,
                )
                ||| side_text(x.left) == side_text(y.right) && side_text(x.right) == side_text(
                    y.left,
                )
            })
        },
{
    let (a, b) = (side_text(x.left), side_text(x.right));
    let (c, d) = (side_text(y.left), side_text(y.right));
    let (p, q) = (joined(before, "\n"@), joined(after, "\n"@));
    lemma_no_later_total(a, b);
    lemma_no_later_total(c, d);
    if key_text(x, before) == key_text(y, after) {
        if no_later(a, b) && no_later(c, d) {
            lemma_key_parts(a, b, p, c, d, q);
        } else if no_later(a, b) {
            lemma_key_parts(a, b, p, d, c, q);
        } else if no_later(c, d) {
            lemma_key_parts(b, a, p, c, d, q);
        } else {
            lemma_key_parts(b, a, p, d, c, q);
        }
    }
}

/// The key is the digest of that text: where SHA-256 tells two texts apart, so does
/// the key, and one text has one key.
pub proof fn law_the_key_is_the_digest(
    x: ItemView,
    y: ItemView,
    before: Seq<Seq<char>>,
    after: Seq<Seq<char>>,
)
    ensures
        key_of(x, before) == key_of(y, after) <==> sha256(encode_utf8(key_text(x, before)))
            == sha256(encode_utf8(key_text(y, after))),
{
    law_hexadecimal_tells_bytes_apart(
        sha256(encode_utf8(key_text(x, before))),
        sha256(encode_utf8(key_text(y, after))),
    );
}

} // verus!
