//! Laws of the chat loop: when a turn is asked about, and how the reply is heard.

use vstd::prelude::*;

use crate::chars::alphanumeric;
use crate::chat_policy::{
    final_answer_order, not_alphanumeric, reply_class, said, stalled, AfterNudge,
};
use crate::json::{has_member, has_members, JsonView};
use crate::strings::{same_ignoring_ascii_case, trimmed};
use crate::strings_laws::law_trimming_leaves_the_middle;

verus! {

/// A turn is asked about exactly where it was not asked about before, called no
/// tool, took no step and cites no source.
pub proof fn law_only_a_turn_that_rests_on_nothing_is_asked_about(
    nudged: bool,
    steps: nat,
    sources: nat,
    tool_calls: nat,
)
    ensures
        stalled(nudged, steps, sources, tool_calls) ==> !nudged,
        stalled(nudged, steps, sources, tool_calls) ==> tool_calls == 0,
        stalled(nudged, steps, sources, tool_calls) ==> steps == 0,
        stalled(nudged, steps, sources, tool_calls) ==> sources == 0,
        stalled(false, 0, 0, 0),
{
}

/// `core` is what is left of a reply without white space and then without signs at
/// its ends: it begins and ends with a letter or a number.
pub open spec fn is_core(content: Seq<char>, core: Seq<char>, from: int) -> bool {
    let t = trimmed(content);
    let to = from + core.len();
    &&& 0 <= from <= to <= t.len()
    &&& t.subrange(from, to) == core
    &&& forall|i: int| 0 <= i < from ==> !alphanumeric(#[trigger] t[i])
    &&& forall|i: int| to <= i < t.len() ==> !alphanumeric(#[trigger] t[i])
    &&& core.len() > 0 ==> alphanumeric(core[0]) && alphanumeric(core[core.len() - 1])
}

/// What was said is the core of the reply.
pub proof fn law_signs_around_a_reply_are_not_heard(content: Seq<char>) -> (from: int)
    ensures
        is_core(content, said(Some(content)), from),
{
    let t = trimmed(content);
    let core = said(Some(content));
    let from = law_trimming_leaves_the_middle(t, not_alphanumeric());
    assert forall|i: int| 0 <= i < from implies !alphanumeric(#[trigger] t[i]) by {
        assert(not_alphanumeric()(t[i]));
    }
    assert forall|i: int| from + core.len() <= i < t.len() implies !alphanumeric(
        #[trigger] t[i],
    ) by {
        assert(not_alphanumeric()(t[i]));
    }
    if core.len() > 0 {
        assert(!not_alphanumeric()(core[0]) && !not_alphanumeric()(core[core.len() - 1]));
    }
    from
}

/// A reply with a tool call goes on. Without one, a reply with no letter or number in
/// it, or none at all, and one whose core is the word `done`, in whatever case, end
/// the turn; any other is a stall.
pub proof fn law_a_reply_is_heard_by_its_core(
    content: Option<Seq<char>>,
    tool_calls: nat,
    core: Seq<char>,
    from: int,
)
    ensures
        tool_calls > 0 <==> reply_class(content, tool_calls) == AfterNudge::Tools,
        tool_calls == 0 && content is None ==> reply_class(content, tool_calls)
            == AfterNudge::Done,
        tool_calls == 0 && (content matches Some(t) && is_core(t, core, from)) ==> reply_class(
            content,
            tool_calls,
        ) == (if core.len() == 0 || same_ignoring_ascii_case(core, "done"@) {
            AfterNudge::Done
        } else {
            AfterNudge::Stalled
        }),
{
    if let Some(t) = content {
        if is_core(t, core, from) {
            let at = law_signs_around_a_reply_are_not_heard(t);
            lemma_one_core(t, core, from, said(content), at);
        }
    }
}

proof fn lemma_one_core(content: Seq<char>, a: Seq<char>, from: int, b: Seq<char>, at: int)
    requires
        is_core(content, a, from),
        is_core(content, b, at),
    ensures
        a == b,
{
    let t = trimmed(content);
    if a.len() > 0 {
        let (first, last) = (t[from], t[from + a.len() - 1]);
        assert(a[0] == first && a[a.len() - 1] == last);
        assert(at <= from);
        assert(from + a.len() <= at + b.len());
    }
    if b.len() > 0 {
        let (first, last) = (t[at], t[at + b.len() - 1]);
        assert(b[0] == first && b[b.len() - 1] == last);
        assert(from <= at);
        assert(at + b.len() <= from + a.len());
    }
    assert(a =~= b);
}

/// The order to answer speaks as the user.
pub proof fn law_the_order_to_answer_speaks_as_the_user()
    ensures
        has_members(final_answer_order(), 2),
        has_member(final_answer_order(), "role"@, JsonView::Text("user"@)),
        has_member(
            final_answer_order(),
            "content"@,
            JsonView::Text(
                "(system) Tool budget exhausted. Answer now from the evidence gathered above."@,
            ),
        ),
{
    let m = final_answer_order()->Object_0;
    assert(m[0].0 == "role"@);
    assert(m[1].0 == "content"@);
}

} // verus!
