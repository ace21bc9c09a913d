//! Laws of the model settings: that every field is stored and shown as what it is,
//! and what a trial reports.

use vstd::prelude::*;

use crate::chars::white_space;
use crate::json::{has_member, has_members, JsonView};
use crate::settings::{
    chat_report, embed_report, embedding_jobs, nonempty_text, report, requested, shown,
    stored_answer, ChatProbe, EmbedProbe, SettingsView,
};
use crate::settlement_laws::{is_job_on, law_a_job_names_its_knowledge_base};
use crate::strings::{decimal, signed_decimal, trimmed};
use crate::strings_laws::law_only_white_space_is_trimmed;

verus! {

/// The text is there and has a character that is not white space.
pub open spec fn is_given(field: Option<Seq<char>>) -> bool {
    field matches Some(t) && exists|i: int| 0 <= i < t.len() && !white_space(#[trigger] t[i])
}

/// A field that was given is stored, as the given text without white space at its
/// ends; any other is not stored.
pub open spec fn is_stored(field: Option<Seq<char>>, stored: Option<Seq<char>>) -> bool {
    if is_given(field) {
        stored == Some(trimmed(field->Some_0))
    } else {
        stored is None
    }
}

proof fn lemma_stored(field: Option<Seq<char>>)
    ensures
        is_stored(field, nonempty_text(field)),
        is_given(field) == (nonempty_text(field) is Some),
{
    if let Some(t) = field {
        law_only_white_space_is_trimmed(t);
        if trimmed(t).len() == 0 {
            assert(!is_given(field));
        } else {
            assert(!forall|i: int| 0 <= i < t.len() ==> white_space(#[trigger] t[i]));
            let i = choose|i: int| 0 <= i < t.len() && !white_space(#[trigger] t[i]);
            assert(is_given(field));
        }
    }
}

/// Every text of a request is stored in the field that it was given for, and the
/// dimension as it was given.
pub proof fn law_what_is_given_is_stored(req: SettingsView)
    ensures
        is_stored(req.chat_base_url, requested(req).chat_base_url),
        is_stored(req.chat_api_key, requested(req).chat_api_key),
        is_stored(req.chat_model, requested(req).chat_model),
        is_stored(req.embed_base_url, requested(req).embed_base_url),
        is_stored(req.embed_api_key, requested(req).embed_api_key),
        is_stored(req.embed_model, requested(req).embed_model),
        requested(req).embed_dim == req.embed_dim,
{
    lemma_stored(req.chat_base_url);
    lemma_stored(req.chat_api_key);
    lemma_stored(req.chat_model);
    lemma_stored(req.embed_base_url);
    lemma_stored(req.embed_api_key);
    lemma_stored(req.embed_model);
}

/// A request that names an embedding model wakes every knowledge base of the
/// workspace, each with a job of its own and in order; any other wakes none.
pub proof fn law_an_embedding_model_wakes_every_base(req: SettingsView, kbs: Seq<u128>, i: int)
    ensures
        !is_given(req.embed_model) ==> embedding_jobs(req, kbs).len() == 0,
        is_given(req.embed_model) ==> embedding_jobs(req, kbs).len() == kbs.len(),
        is_given(req.embed_model) && 0 <= i < kbs.len() ==> is_job_on(
            embedding_jobs(req, kbs)[i],
            "embed_ontology"@,
            kbs[i],
        ),
{
    lemma_stored(req.embed_model);
    if 0 <= i < kbs.len() {
        law_a_job_names_its_knowledge_base("embed_ontology"@, kbs[i]);
    }
}

/// A text as JSON shows it, or null.
pub open spec fn shown_text(field: Option<Seq<char>>) -> JsonView {
    match field {
        Some(t) => JsonView::Text(t),
        None => JsonView::Null,
    }
}

/// Every field is shown under its own name: the texts and the dimension as they
/// are, and of each key whether it is there and not empty. Without settings nothing
/// is shown.
pub proof fn law_every_field_is_shown_as_it_is(s: SettingsView)
    ensures
        has_members(shown(None), 0),
        ({
            let j = shown(Some(s));
            let chat_key = s.chat_api_key matches Some(k) && k.len() > 0;
            let embed_key = s.embed_api_key matches Some(k) && k.len() > 0;
            &&& has_members(j, 7)
            &&& has_member(j, "chat_base_url"@, shown_text(s.chat_base_url))
            &&& has_member(j, "chat_model"@, shown_text(s.chat_model))
            &&& has_member(j, "has_chat_key"@, JsonView::Bool(chat_key))
            &&& has_member(j, "embed_base_url"@, shown_text(s.embed_base_url))
            &&& has_member(j, "embed_model"@, shown_text(s.embed_model))
            &&& has_member(
                j,
                "embed_dim"@,
                match s.embed_dim {
                    Some(d) => JsonView::Number(signed_decimal(d as int)),
                    None => JsonView::Null,
                },
            )
            &&& has_member(j, "has_embed_key"@, JsonView::Bool(embed_key))
        }),
{
    let m = shown(Some(s))->Object_0;
    assert(m[0].0 == "chat_base_url"@);
    assert(m[1].0 == "chat_model"@);
    assert(m[2].0 == "has_chat_key"@);
    assert(m[3].0 == "embed_base_url"@);
    assert(m[4].0 == "embed_model"@);
    assert(m[5].0 == "embed_dim"@);
    assert(m[6].0 == "has_embed_key"@);
}

/// What is stored is then shown: a request that was carried out on empty settings
/// shows the texts that it gave, and that its keys are there.
pub proof fn law_what_is_stored_is_shown(req: SettingsView)
    ensures
        ({
            let j = shown(Some(requested(req)));
            &&& is_given(req.chat_base_url) ==> has_member(
                j,
                "chat_base_url"@,
                JsonView::Text(trimmed(req.chat_base_url->Some_0)),
            )
            &&& is_given(req.chat_model) ==> has_member(
                j,
                "chat_model"@,
                JsonView::Text(trimmed(req.chat_model->Some_0)),
            )
            &&& is_given(req.embed_base_url) ==> has_member(
                j,
                "embed_base_url"@,
                JsonView::Text(trimmed(req.embed_base_url->Some_0)),
            )
            &&& is_given(req.embed_model) ==> has_member(
                j,
                "embed_model"@,
                JsonView::Text(trimmed(req.embed_model->Some_0)),
            )
            &&& has_member(j, "has_chat_key"@, JsonView::Bool(is_given(req.chat_api_key)))
            &&& has_member(j, "has_embed_key"@, JsonView::Bool(is_given(req.embed_api_key)))
        }),
{
    law_what_is_given_is_stored(req);
    law_every_field_is_shown_as_it_is(requested(req));
    lemma_stored(req.chat_api_key);
    lemma_stored(req.embed_api_key);
}

// ---- Trying out ----

/// The report says that it failed, and why.
pub open spec fn says_failed(j: JsonView, why: Seq<char>) -> bool {
    &&& has_members(j, 2)
    &&& has_member(j, "ok"@, JsonView::Bool(false))
    &&& has_member(j, "error"@, JsonView::Text(why))
}

/// The report says that it went well, and what came back.
pub open spec fn says_went_well(j: JsonView, key: Seq<char>, value: JsonView) -> bool {
    &&& has_members(j, 2)
    &&& has_member(j, "ok"@, JsonView::Bool(true))
    &&& has_member(j, key, value)
}

/// A model that is not configured, or failed, is reported with the reason; one that
/// replied with the front of its reply, all of it up to fifty characters.
pub proof fn law_the_chat_model_is_reported(probe: ChatProbe)
    ensures
        probe is NotConfigured ==> says_failed(chat_report(probe), "Not configured"@),
        probe matches ChatProbe::Failed(why) ==> says_failed(chat_report(probe), why@),
        probe matches ChatProbe::Replied(reply) ==> {
            let n = if reply@.len() <= 50 {
                reply@.len() as int
            } else {
                50
            };
            says_went_well(chat_report(probe), "reply"@, JsonView::Text(reply@.take(n)))
        },
{
    let m = chat_report(probe)->Object_0;
    assert(m[0].0 == "ok"@);
    if let ChatProbe::Replied(reply) = probe {
        assert(m[1].0 == "reply"@);
        assert(reply@.take(reply@.len() as int) =~= reply@);
    } else {
        assert(m[1].0 == "error"@);
    }
}

/// An embedding model is reported with the dimension of the first vector; no vector
/// at all is a failure.
pub proof fn law_the_embedding_model_is_reported(probe: EmbedProbe)
    ensures
        probe is NotConfigured ==> says_failed(embed_report(probe), "Not configured"@),
        probe matches EmbedProbe::Failed(why) ==> says_failed(embed_report(probe), why@),
        probe matches EmbedProbe::Embedded(dims) ==> {
            &&& dims@.len() == 0 ==> says_failed(embed_report(probe), "Empty response"@)
            &&& dims@.len() > 0 ==> says_went_well(
                embed_report(probe),
                "dim"@,
                JsonView::Number(decimal(dims@[0] as nat)),
            )
        },
{
    let m = embed_report(probe)->Object_0;
    assert(m[0].0 == "ok"@);
    if probe is Embedded && probe->Embedded_0@.len() > 0 {
        assert(m[1].0 == "dim"@);
    } else {
        assert(m[1].0 == "error"@);
    }
}

/// Both reports stand under the name of their model.
pub proof fn law_each_report_stands_under_its_model(chat: JsonView, embed: JsonView)
    ensures
        has_members(report(chat, embed), 2),
        has_member(report(chat, embed), "chat"@, chat),
        has_member(report(chat, embed), "embed"@, embed),
        has_members(stored_answer(), 1),
        has_member(stored_answer(), "ok"@, JsonView::Bool(true)),
{
    let m = report(chat, embed)->Object_0;
    assert(m[0].0 == "chat"@);
    assert(m[1].0 == "embed"@);
    let n = stored_answer()->Object_0;
    assert(n[0].0 == "ok"@);
}

} // verus!
