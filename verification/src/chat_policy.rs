//! Rules of the chat loop. Each says what is decided; the caller speaks the
//! protocol.

use vstd::prelude::*;

use crate::chars::{alphanumeric, is_alphanumeric};
use crate::json::{member, object, text, Json, JsonView, Member};
use crate::strings::{
    chars_of, eq_ignore_ascii_case, same_ignoring_ascii_case, trim, trim_by, trim_where, trimmed,
};

verus! {

/// A call of a tool, as the model wrote it.
#[derive(Debug)]
pub struct ToolCall {
    pub id: String,
    pub name: String,
    pub arguments: String,
}

/// One turn of the model.
#[derive(Debug)]
pub struct AssistantTurn {
    pub content: Option<String>,
    pub tool_calls: Vec<ToolCall>,
}

/// A turn without a tool call and without text is an error, and its reason is
/// given; an empty answer is none.
pub fn no_tool_on_empty_answer(answer: &str, tool_calls: &[ToolCall]) -> (r: Option<
    &'static str,
>)
    ensures
        tool_calls@.len() == 0 && answer@.len() == 0 ==> (r matches Some(why) && why@
            == "Model returned an empty answer"@),
        !(tool_calls@.len() == 0 && answer@.len() == 0) ==> r is None,
{
    if tool_calls.len() == 0 && answer.is_empty() {
        Some("Model returned an empty answer")
    } else {
        None
    }
}

pub open spec fn final_answer_order() -> JsonView {
    JsonView::Object(
        seq![
            ("role"@, JsonView::Text("user"@)),
            (
                "content"@,
                JsonView::Text(
                    "(system) Tool budget exhausted. Answer now from the evidence gathered above."@,
                ),
            ),
        ],
    )
}

/// The message that orders an answer once the tool budget is spent.
pub fn force_final_answer_message() -> (r: Json)
    ensures
        r.deep_view() == final_answer_order(),
{
    let members: Vec<Member> = vec![
        member("role", text("user")),
        member(
            "content",
            text("(system) Tool budget exhausted. Answer now from the evidence gathered above."),
        ),
    ];
    assert(members.deep_view() =~= final_answer_order()->Object_0);
    object(members)
}

/// The turn has stalled, and the model was not asked about it yet: it called no
/// tool, and neither steps nor sources stand behind the answer.
pub open spec fn stalled(nudged: bool, steps: nat, sources: nat, tool_calls: nat) -> bool {
    !nudged && tool_calls == 0 && steps == 0 && sources == 0
}

/// Ask the model once whether it has stalled?
pub fn should_nudge_stalled_turn(
    nudged: bool,
    steps: &[Json],
    sources: &[Json],
    tool_calls: &[ToolCall],
) -> (r: bool)
    ensures
        r == stalled(nudged, steps@.len(), sources@.len(), tool_calls@.len()),
{
    !nudged && tool_calls.len() == 0 && answer_rests_on_nothing(steps, sources)
}

/// No tool was called and nothing was cited: nothing stands behind the answer.
pub fn answer_rests_on_nothing(steps: &[Json], sources: &[Json]) -> (r: bool)
    ensures
        r == (steps@.len() == 0 && sources@.len() == 0),
{
    steps.len() == 0 && sources.len() == 0
}

/// What the model did when it was asked whether it has stalled.
#[derive(Debug, Clone, Copy, PartialEq, Eq, Structural)]
pub enum AfterNudge {
    /// It called a tool: go on.
    Tools,
    /// It said that the answer stands, or said nothing: end here.
    Done,
    /// It wrote more text: it is still stalled.
    Stalled,
}

pub open spec fn not_alphanumeric() -> spec_fn(char) -> bool {
    |c: char| !alphanumeric(c)
}

/// What was said, without blanks and signs around it.
pub open spec fn said(content: Option<Seq<char>>) -> Seq<char> {
    match content {
        Some(t) => trim_where(trimmed(t), not_alphanumeric()),
        None => Seq::empty(),
    }
}

pub open spec fn reply_class(content: Option<Seq<char>>, tool_calls: nat) -> AfterNudge {
    if tool_calls > 0 {
        AfterNudge::Tools
    } else if said(content).len() == 0 || same_ignoring_ascii_case(said(content), "done"@) {
        AfterNudge::Done
    } else {
        AfterNudge::Stalled
    }
}

fn trim_signs<'a>(s: &'a str) -> (r: &'a str)
    ensures
        r@ == trim_where(s@, not_alphanumeric()),
{
    let chars: Vec<char> = chars_of(s);
    let n: usize = chars.len();
    let mut marks: Vec<bool> = Vec::new();
    for i in 0..n
        invariant
            n == chars@.len(),
            marks@.len() == i,
            forall|j: int| 0 <= j < i ==> #[trigger] marks@[j] == !alphanumeric(chars@[j]),
    {
        marks.push(!is_alphanumeric(chars[i]));
    }
    trim_by(s, &marks, Ghost(not_alphanumeric()))
}

pub fn classify_nudge_response(turn: &AssistantTurn) -> (r: AfterNudge)
    ensures
        r == reply_class(turn.content.deep_view(), turn.tool_calls@.len()),
{
    if turn.tool_calls.len() > 0 {
        return AfterNudge::Tools;
    }
    match &turn.content {
        Some(t) => {
            let core: &str = trim_signs(trim(t.as_str()));
            if core.is_empty() || eq_ignore_ascii_case(core, "done") {
                AfterNudge::Done
            } else {
                AfterNudge::Stalled
            }
        },
        None => AfterNudge::Done,
    }
}

/// Fall back to a single retrieval? Only where the first round failed: a model
/// without tools fails there. A later failure is a failure.
pub fn should_degrade_to_one_shot_rag(rounds: usize, has_error: bool) -> (r: bool)
    ensures
        r == (rounds == 0 && has_error),
{
    rounds == 0 && has_error
}

// ---- Laws ----

/// A turn is nudged at most once.
pub proof fn law_a_turn_is_nudged_once(steps: nat, sources: nat, tool_calls: nat)
    ensures
        !stalled(true, steps, sources, tool_calls),
{
}

/// A turn that called a tool is neither empty nor stalled, and a reply that
/// calls a tool goes on whatever it says beside it.
pub proof fn law_a_tool_call_goes_on(
    nudged: bool,
    steps: nat,
    sources: nat,
    content: Option<Seq<char>>,
    tool_calls: nat,
)
    requires
        tool_calls > 0,
    ensures
        !stalled(nudged, steps, sources, tool_calls),
        reply_class(content, tool_calls) == AfterNudge::Tools,
{
}

/// Silence ends the turn.
pub proof fn law_silence_is_done()
    ensures
        reply_class(None, 0) == AfterNudge::Done,
        reply_class(Some(Seq::empty()), 0) == AfterNudge::Done,
{
}

} // verus!
