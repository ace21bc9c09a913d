//! Jobs for the queue.

use vstd::prelude::*;

use crate::ids::{id_json, id_text};
use crate::json::{member, object, Json, JsonView, Member};

verus! {

/// A job to queue, unless the same one waits there already.
#[derive(Debug)]
pub struct Job {
    pub kind: &'static str,
    pub payload: Json,
}

/// What a [`Job`] holds.
pub struct JobView {
    pub kind: Seq<char>,
    pub payload: JsonView,
}

impl DeepView for Job {
    type V = JobView;

    open spec fn deep_view(&self) -> JobView {
        JobView { kind: self.kind@, payload: self.payload.deep_view() }
    }
}

/// A job that works on one knowledge base.
pub open spec fn on_kb(kind: Seq<char>, kb_id: u128) -> JobView {
    JobView {
        kind,
        payload: JsonView::Object(seq![("kb_id"@, JsonView::Text(id_text(kb_id)))]),
    }
}

pub fn kb_job(kind: &'static str, kb_id: u128) -> (r: Job)
    ensures
        r.deep_view() == on_kb(kind@, kb_id),
{
    let members: Vec<Member> = vec![member("kb_id", id_json(kb_id))];
    assert(members.deep_view() =~= on_kb(kind@, kb_id).payload->Object_0);
    Job { kind, payload: object(members) }
}

} // verus!
