//! Adjudication of the pairs that wait in the queue.
//!
//! A cached verdict is used first; what has none is asked of the model, many
//! pairs in one call. A sure `same` merges (and can be rolled back), a sure
//! `different` keeps apart, and the rest goes to a person. Without a model
//! everything goes to a person.

use vstd::prelude::*;
use vstd::string::*;
use vstd::utf8::encode_utf8;

use crate::chars::lower_hex;
use crate::error::AppError;

use crate::json::{member, object, optional_text, text, text_or_null, Json, JsonView, Member};
use crate::review::{
    label_of, type_label_or_untyped, ItemView, ReviewItem, ReviewSide, Ruling, RulingView, SideView,
};
use crate::single::Single;
use crate::strings::{
    comes_no_later, hex, join, joined, lemma_hex_digits, lowercase, no_later, write_hex,
};

verus! {

/// How many pairs one round takes from the queue.
pub const BATCH_SIZE: i64 = 12;

/// How many pairs are handed to people at once where there is no model.
pub const NO_MODEL_BATCH: i64 = 500;

/// The bit pattern of 0.8, the confidence at which the adjudicator acts.
pub const AUTO_CONF: u32 = 0x3f4c_cccd;

/// How many rounds a run takes.
pub const MAX_ROUNDS: usize = 20;

/// How many pairs out of a hundred go to a person even where the model is sure.
/// Without them the decisions of people would shrink to the hard ones, and
/// nothing would measure how far the model agrees with people. The sample is
/// taken by the identifier, so that a pair gets the same answer in every run.
pub const HUMAN_SAMPLE_PCT: u128 = 10;

// ---- The key of a pair in the cache ----

/// The SHA-256 digest of a message.
pub uninterp spec fn sha256(message: Seq<u8>) -> Seq<u8>;

/// `Sha256::digest` of the `sha2` crate: 32 bytes that depend on the message
/// alone. Nothing is said of how they are computed.
#[verifier::external_body]
fn sha256_digest(message: &[u8]) -> (r: Vec<u8>)
    ensures
        r@ == sha256(message@),
        r@.len() == 32,
{
    <sha2::Sha256 as sha2::Digest>::digest(message).to_vec()
}

/// What the key says of one side: its name, its type and its facts, and not its
/// identifier, so that a document that is uploaded again costs nothing.
pub open spec fn side_text(s: SideView) -> Seq<char> {
    lowercase(s.name) + "|"@ + label_of(s) + "|"@ + joined(s.top_facts, ";"@)
}

/// The two sides in the order of their texts, whichever stood on the left, and
/// the precedents: the answer depends on them too, so a new decision of people
/// makes an old answer stale.
pub open spec fn key_text(item: ItemView, precedents: Seq<Seq<char>>) -> Seq<char> {
    let a = side_text(item.left);
    let b = side_text(item.right);
    let sides = if no_later(a, b) {
        a + "##"@ + b
    } else {
        b + "##"@ + a
    };
    sides + "##"@ + joined(precedents, "\n"@)
}

pub open spec fn key_of(item: ItemView, precedents: Seq<Seq<char>>) -> Seq<char> {
    hex(sha256(encode_utf8(key_text(item, precedents))))
}

fn write_side(s: &ReviewSide) -> (r: String)
    ensures
        r@ == side_text(s.deep_view()),
{
    let mut out: String = s.name.to_lowercase();
    out.append("|");
    out.append(type_label_or_untyped(s).as_str());
    out.append("|");
    out.append(join(&s.top_facts, ";").as_str());
    out
}

/// The key under which the verdict on a pair is cached: 64 lower-case hexadecimal
/// digits.
pub fn pair_key(item: &ReviewItem, precedents: &Vec<String>) -> (r: String)
    ensures
        r@ == key_of(item.deep_view(), precedents.deep_view()),
        r@.len() == 64,
        forall|i: int| 0 <= i < r@.len() ==> lower_hex(#[trigger] r@[i]),
{
    let left: String = write_side(&item.left);
    let right: String = write_side(&item.right);
    let mut out: String = String::new();
    if comes_no_later(left.as_str(), right.as_str()) {
        out.append(left.as_str());
        out.append("##");
        out.append(right.as_str());
    } else {
        out.append(right.as_str());
        out.append("##");
        out.append(left.as_str());
    }
    out.append("##");
    out.append(join(precedents, "\n").as_str());
    assert(out@ =~= key_text(item.deep_view(), precedents.deep_view()));
    let digest: Vec<u8> = sha256_digest(out.as_str().as_bytes());
    proof {
        lemma_hex_digits(digest@);
    }
    write_hex(&digest)
}

// ---- Carrying out a ruling ----

/// The pair belongs to the sample that people decide.
pub open spec fn sampled(item: ItemView) -> bool {
    item.id % 100 < HUMAN_SAMPLE_PCT
}

pub fn sampled_for_a_person(item: &ReviewItem) -> (r: bool)
    ensures
        r == sampled(item.deep_view()),
{
    item.id % 100 < HUMAN_SAMPLE_PCT
}

/// An entry of the ledger about a pair. Nobody signed it: the machine acted.
#[derive(Debug)]
pub struct AuditEntry {
    pub action: &'static str,
    pub review_id: u128,
    pub detail: Json,
}

/// What an [`AuditEntry`] holds.
pub struct AuditView {
    pub action: Seq<char>,
    pub review_id: u128,
    pub detail: JsonView,
}

impl DeepView for AuditEntry {
    type V = AuditView;

    open spec fn deep_view(&self) -> AuditView {
        AuditView {
            action: self.action@,
            review_id: self.review_id,
            detail: self.detail.deep_view(),
        }
    }
}

/// The next step in carrying out a ruling.
#[derive(Debug)]
pub enum Step {
    /// Hand the pair to a person, and be done.
    Escalate { review_id: u128, reason: String },
    /// Find out what a merge would send out of the graph at once.
    CheckImpact { left: u128, right: u128 },
    /// Merge the two, into whichever is to survive.
    Merge { left: u128, right: u128, reason: String },
    /// Close the pair, then write the entry to the ledger, and be done.
    Close { review_id: u128, status: &'static str, reason: String, audit: AuditEntry },
    /// Give up with this error.
    Fail(AppError),
}

/// What a [`Step`] holds.
pub enum StepView {
    Escalate { review_id: u128, reason: Seq<char> },
    CheckImpact { left: u128, right: u128 },
    Merge { left: u128, right: u128, reason: Seq<char> },
    Close { review_id: u128, status: Seq<char>, reason: Seq<char>, audit: AuditView },
    Fail(AppError),
}

impl DeepView for Step {
    type V = StepView;

    open spec fn deep_view(&self) -> StepView {
        match *self {
            Step::Escalate { review_id, reason } => StepView::Escalate {
                review_id,
                reason: reason@,
            },
            Step::CheckImpact { left, right } => StepView::CheckImpact { left, right },
            Step::Merge { left, right, reason } => StepView::Merge {
                left,
                right,
                reason: reason@,
            },
            Step::Close { review_id, status, reason, audit } => StepView::Close {
                review_id,
                status: status@,
                reason: reason@,
                audit: audit.deep_view(),
            },
            Step::Fail(e) => StepView::Fail(e),
        }
    }
}

pub open spec fn sure(ruling: RulingView) -> bool {
    ruling.same is Some && ruling.confidence.reaches(Single { bits: AUTO_CONF })
}

/// A reason: what happened, a bar, where the verdict came from, and the
/// confidence as it is shown.
pub open spec fn reason_text(what: Seq<char>, via: Seq<char>, shown: Seq<char>) -> Seq<char> {
    what + via + " "@ + shown
}

pub open spec fn audit_detail(item: ItemView, ruling: RulingView, via: Seq<char>) -> JsonView {
    JsonView::Object(
        seq![
            ("left"@, JsonView::Text(item.left.name)),
            ("right"@, JsonView::Text(item.right.name)),
            ("score"@, item.score),
            ("confidence"@, JsonView::Single(ruling.confidence)),
            ("via"@, JsonView::Text(via)),
            ("why"@, text_or_null(ruling.why)),
        ],
    )
}

pub open spec fn closed(
    item: ItemView,
    ruling: RulingView,
    via: Seq<char>,
    status: Seq<char>,
    action: Seq<char>,
    reason: Seq<char>,
) -> StepView {
    StepView::Close {
        review_id: item.id,
        status,
        reason,
        audit: AuditView {
            action,
            review_id: item.id,
            detail: audit_detail(item, ruling, via),
        },
    }
}

/// A ruling that is not sure goes to a person. So does a sure one on a pair of
/// the sample. A sure `different` closes the pair. A sure `same` is first held
/// against what the merge would do.
pub open spec fn first_step(
    item: ItemView,
    ruling: RulingView,
    via: Seq<char>,
    shown: Seq<char>,
) -> StepView {
    if !sure(ruling) {
        StepView::Escalate {
            review_id: item.id,
            reason: reason_text("escalate_unsure|"@, via, shown),
        }
    } else if sampled(item) {
        StepView::Escalate {
            review_id: item.id,
            reason: reason_text(
                "escalate_sample|"@,
                if ruling.same == Some(true) {
                    "same"@
                } else {
                    "different"@
                },
                shown,
            ),
        }
    } else if ruling.same == Some(true) {
        StepView::CheckImpact { left: item.left.id, right: item.right.id }
    } else {
        closed(
            item,
            ruling,
            via,
            "kept"@,
            "review.keep"@,
            reason_text("kept_apart|"@, via, shown),
        )
    }
}

/// A merge that would send something out of the graph is held for a person.
pub open spec fn step_after_impact(
    item: ItemView,
    hold: Option<Seq<char>>,
    via: Seq<char>,
    shown: Seq<char>,
) -> StepView {
    match hold {
        Some(h) => StepView::Escalate { review_id: item.id, reason: "escalate_impact|"@ + h },
        None => StepView::Merge {
            left: item.left.id,
            right: item.right.id,
            reason: reason_text("auto_merged|"@, via, shown),
        },
    }
}

/// An earlier merge of the batch may have taken one of the two away: that goes
/// to a person and does not fail the run.
pub open spec fn step_after_merge(
    item: ItemView,
    ruling: RulingView,
    via: Seq<char>,
    shown: Seq<char>,
    merged: Result<u128, AppError>,
) -> StepView {
    match merged {
        Ok(_) => closed(
            item,
            ruling,
            via,
            "merged"@,
            "review.merge"@,
            reason_text("auto_merged|"@, via, shown),
        ),
        Err(AppError::Conflict(_)) => StepView::Escalate {
            review_id: item.id,
            reason: "escalate_entity_changed"@,
        },
        Err(AppError::NotFound) => StepView::Escalate {
            review_id: item.id,
            reason: "escalate_entity_changed"@,
        },
        Err(e) => StepView::Fail(e),
    }
}

fn write_reason(what: &str, via: &str, shown: &str) -> (r: String)
    ensures
        r@ == reason_text(what@, via@, shown@),
{
    let mut out: String = what.to_owned();
    out.append(via);
    out.append(" ");
    out.append(shown);
    out
}

fn close(
    item: &ReviewItem,
    ruling: &Ruling,
    via: &str,
    status: &'static str,
    action: &'static str,
    reason: String,
) -> (r: Step)
    ensures
        r.deep_view() == closed(
            item.deep_view(),
            ruling.deep_view(),
            via@,
            status@,
            action@,
            reason@,
        ),
{
    let members: Vec<Member> = vec![
        member("left", text(item.left.name.as_str())),
        member("right", text(item.right.name.as_str())),
        member("score", item.score.copy()),
        member("confidence", Json::Single(ruling.confidence)),
        member("via", text(via)),
        member("why", optional_text(&ruling.why)),
    ];
    assert(members.deep_view() =~= audit_detail(
        item.deep_view(),
        ruling.deep_view(),
        via@,
    )->Object_0);
    Step::Close {
        review_id: item.id,
        status,
        reason,
        audit: AuditEntry { action, review_id: item.id, detail: object(members) },
    }
}

/// Begins to carry out a ruling that came `via` the cache or the model; `shown`
/// is the confidence with two digits.
pub fn apply_verdict(item: &ReviewItem, ruling: &Ruling, via: &str, shown: &str) -> (r: Step)
    ensures
        r.deep_view() == first_step(item.deep_view(), ruling.deep_view(), via@, shown@),
{
    let enough: bool = ruling.confidence.at_least(Single { bits: AUTO_CONF });
    match ruling.same {
        Some(same) if enough => {
            if sampled_for_a_person(item) {
                let word: &'static str = if same {
                    "same"
                } else {
                    "different"
                };
                Step::Escalate {
                    review_id: item.id,
                    reason: write_reason("escalate_sample|", word, shown),
                }
            } else if same {
                Step::CheckImpact { left: item.left.id, right: item.right.id }
            } else {
                let reason: String = write_reason("kept_apart|", via, shown);
                close(item, ruling, via, "kept", "review.keep", reason)
            }
        },
        _ => Step::Escalate {
            review_id: item.id,
            reason: write_reason("escalate_unsure|", via, shown),
        },
    }
}

/// The impact of the merge is known; `hold` says why a person has to see it.
pub fn after_impact(item: &ReviewItem, hold: Option<&str>, via: &str, shown: &str) -> (r: Step)
    ensures
        r.deep_view() == step_after_impact(
            item.deep_view(),
            match hold {
                Some(h) => Some(h@),
                None => None,
            },
            via@,
            shown@,
        ),
{
    match hold {
        Some(h) => {
            let mut reason: String = "escalate_impact|".to_owned();
            reason.append(h);
            Step::Escalate { review_id: item.id, reason }
        },
        None => Step::Merge {
            left: item.left.id,
            right: item.right.id,
            reason: write_reason("auto_merged|", via, shown),
        },
    }
}

/// The merge was tried.
pub fn after_merge(
    item: &ReviewItem,
    ruling: &Ruling,
    via: &str,
    shown: &str,
    merged: Result<u128, AppError>,
) -> (r: Step)
    ensures
        r.deep_view() == step_after_merge(
            item.deep_view(),
            ruling.deep_view(),
            via@,
            shown@,
            merged,
        ),
{
    match merged {
        Ok(_) => {
            let reason: String = write_reason("auto_merged|", via, shown);
            close(item, ruling, via, "merged", "review.merge", reason)
        },
        Err(AppError::Conflict(_)) => Step::Escalate {
            review_id: item.id,
            reason: "escalate_entity_changed".to_owned(),
        },
        Err(AppError::NotFound) => Step::Escalate {
            review_id: item.id,
            reason: "escalate_entity_changed".to_owned(),
        },
        Err(e) => Step::Fail(e),
    }
}

} // verus!
