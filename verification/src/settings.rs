//! The model settings of a workspace: how they are shown, how they are changed,
//! and how they are tried out.

use vstd::prelude::*;
use vstd::string::*;

use crate::jobs::{kb_job, on_kb, Job, JobView};
use crate::json::{integer, member, object, optional_text, text, text_or_null, Json, JsonView, Member};
use crate::strings::{
    decimal, lemma_trimmed_again, signed_decimal, trim, trimmed, write_decimal,
};

verus! {

/// The settings that are stored.
#[derive(Debug)]
pub struct Settings {
    pub chat_base_url: Option<String>,
    pub chat_api_key: Option<String>,
    pub chat_model: Option<String>,
    pub embed_base_url: Option<String>,
    pub embed_api_key: Option<String>,
    pub embed_model: Option<String>,
    pub embed_dim: Option<i32>,
}

/// A request to change them. A key that is missing or empty keeps the old one.
#[derive(Debug)]
pub struct PutSettingsReq {
    pub chat_base_url: Option<String>,
    pub chat_api_key: Option<String>,
    pub chat_model: Option<String>,
    pub embed_base_url: Option<String>,
    pub embed_api_key: Option<String>,
    pub embed_model: Option<String>,
    pub embed_dim: Option<i32>,
}

/// What [`Settings`] or a [`PutSettingsReq`] hold.
pub struct SettingsView {
    pub chat_base_url: Option<Seq<char>>,
    pub chat_api_key: Option<Seq<char>>,
    pub chat_model: Option<Seq<char>>,
    pub embed_base_url: Option<Seq<char>>,
    pub embed_api_key: Option<Seq<char>>,
    pub embed_model: Option<Seq<char>>,
    pub embed_dim: Option<i32>,
}

impl DeepView for Settings {
    type V = SettingsView;

    open spec fn deep_view(&self) -> SettingsView {
        SettingsView {
            chat_base_url: self.chat_base_url.deep_view(),
            chat_api_key: self.chat_api_key.deep_view(),
            chat_model: self.chat_model.deep_view(),
            embed_base_url: self.embed_base_url.deep_view(),
            embed_api_key: self.embed_api_key.deep_view(),
            embed_model: self.embed_model.deep_view(),
            embed_dim: self.embed_dim,
        }
    }
}

impl DeepView for PutSettingsReq {
    type V = SettingsView;

    open spec fn deep_view(&self) -> SettingsView {
        SettingsView {
            chat_base_url: self.chat_base_url.deep_view(),
            chat_api_key: self.chat_api_key.deep_view(),
            chat_model: self.chat_model.deep_view(),
            embed_base_url: self.embed_base_url.deep_view(),
            embed_api_key: self.embed_api_key.deep_view(),
            embed_model: self.embed_model.deep_view(),
            embed_dim: self.embed_dim,
        }
    }
}

// ---- Showing ----

/// A key is there.
pub open spec fn has_key(key: Option<Seq<char>>) -> bool {
    key matches Some(k) && k.len() > 0
}

pub open spec fn number_or_null(n: Option<i32>) -> JsonView {
    match n {
        Some(d) => JsonView::Number(signed_decimal(d as int)),
        None => JsonView::Null,
    }
}

/// The settings as they are shown: of a key, only whether it is there.
pub open spec fn shown(s: Option<SettingsView>) -> JsonView {
    match s {
        Some(s) => JsonView::Object(
            seq![
                ("chat_base_url"@, text_or_null(s.chat_base_url)),
                ("chat_model"@, text_or_null(s.chat_model)),
                ("has_chat_key"@, JsonView::Bool(has_key(s.chat_api_key))),
                ("embed_base_url"@, text_or_null(s.embed_base_url)),
                ("embed_model"@, text_or_null(s.embed_model)),
                ("embed_dim"@, number_or_null(s.embed_dim)),
                ("has_embed_key"@, JsonView::Bool(has_key(s.embed_api_key))),
            ],
        ),
        None => JsonView::Object(Seq::empty()),
    }
}

fn is_there(key: &Option<String>) -> (r: bool)
    ensures
        r == has_key(key.deep_view()),
{
    match key {
        Some(k) => !k.as_str().is_empty(),
        None => false,
    }
}

pub fn get(s: &Option<Settings>) -> (r: Json)
    ensures
        r.deep_view() == shown(s.deep_view()),
{
    match s {
        Some(s) => {
            let dim: Json = match s.embed_dim {
                Some(d) => integer(d as i64),
                None => Json::Null,
            };
            let members: Vec<Member> = vec![
                member("chat_base_url", optional_text(&s.chat_base_url)),
                member("chat_model", optional_text(&s.chat_model)),
                member("has_chat_key", Json::Bool(is_there(&s.chat_api_key))),
                member("embed_base_url", optional_text(&s.embed_base_url)),
                member("embed_model", optional_text(&s.embed_model)),
                member("embed_dim", dim),
                member("has_embed_key", Json::Bool(is_there(&s.embed_api_key))),
            ];
            assert(members.deep_view() =~= shown(Some(s.deep_view()))->Object_0);
            object(members)
        },
        None => {
            let members: Vec<Member> = Vec::new();
            assert(members.deep_view() =~= Seq::empty());
            object(members)
        },
    }
}

// ---- Changing ----

/// A text without blanks around it, where anything is left.
pub open spec fn nonempty_text(s: Option<Seq<char>>) -> Option<Seq<char>> {
    match s {
        Some(t) => if trimmed(t).len() > 0 {
            Some(trimmed(t))
        } else {
            None
        },
        None => None,
    }
}

/// What a request asks to store.
pub open spec fn requested(req: SettingsView) -> SettingsView {
    SettingsView {
        chat_base_url: nonempty_text(req.chat_base_url),
        chat_api_key: nonempty_text(req.chat_api_key),
        chat_model: nonempty_text(req.chat_model),
        embed_base_url: nonempty_text(req.embed_base_url),
        embed_api_key: nonempty_text(req.embed_api_key),
        embed_model: nonempty_text(req.embed_model),
        embed_dim: req.embed_dim,
    }
}

/// With an embedding model the ontology of each knowledge base can be indexed
/// from this moment on.
pub open spec fn embedding_jobs(req: SettingsView, kbs: Seq<u128>) -> Seq<JobView> {
    if nonempty_text(req.embed_model) is Some {
        kbs.map_values(|kb: u128| on_kb("embed_ontology"@, kb))
    } else {
        Seq::empty()
    }
}

pub fn nonempty(s: &Option<String>) -> (r: Option<String>)
    ensures
        r.deep_view() == nonempty_text(s.deep_view()),
{
    match s {
        Some(t) => {
            let core: &str = trim(t.as_str());
            if core.is_empty() {
                None
            } else {
                Some(core.to_owned())
            }
        },
        None => None,
    }
}

/// The values to store.
pub fn put(req: &PutSettingsReq) -> (r: Settings)
    ensures
        r.deep_view() == requested(req.deep_view()),
{
    Settings {
        chat_base_url: nonempty(&req.chat_base_url),
        chat_api_key: nonempty(&req.chat_api_key),
        chat_model: nonempty(&req.chat_model),
        embed_base_url: nonempty(&req.embed_base_url),
        embed_api_key: nonempty(&req.embed_api_key),
        embed_model: nonempty(&req.embed_model),
        embed_dim: req.embed_dim,
    }
}

/// Are there jobs to queue once the values are stored?
pub fn brings_a_model(req: &PutSettingsReq) -> (r: bool)
    ensures
        r == (nonempty_text(req.deep_view().embed_model) is Some),
{
    nonempty(&req.embed_model).is_some()
}

/// The jobs to queue, one for each knowledge base of the workspace.
pub fn jobs_after_put(req: &PutSettingsReq, kbs: &Vec<u128>) -> (r: Vec<Job>)
    ensures
        r.deep_view() == embedding_jobs(req.deep_view(), kbs@),
{
    let mut out: Vec<Job> = Vec::new();
    assert(out.deep_view() =~= Seq::empty());
    if !brings_a_model(req) {
        return out;
    }
    let n: usize = kbs.len();
    let ghost each = |kb: u128| on_kb("embed_ontology"@, kb);
    assert(kbs@.take(0).map_values(each) =~= Seq::empty());
    for i in 0..n
        invariant
            n == kbs@.len(),
            each == (|kb: u128| on_kb("embed_ontology"@, kb)),
            out.deep_view() == kbs@.take(i as int).map_values(each),
    {
        let ghost sofar = out.deep_view();
        let job: Job = kb_job("embed_ontology", kbs[i]);
        let ghost new = job.deep_view();
        out.push(job);
        assert(out.deep_view() =~= sofar.push(new));
        assert(kbs@.take(i + 1).map_values(each) =~= sofar.push(each(kbs@[i as int])));
    }
    assert(kbs@.take(n as int) =~= kbs@);
    out
}

pub open spec fn stored_answer() -> JsonView {
    JsonView::Object(seq![("ok"@, JsonView::Bool(true))])
}

/// The answer to a request that was carried out.
pub fn stored() -> (r: Json)
    ensures
        r.deep_view() == stored_answer(),
{
    let members: Vec<Member> = vec![member("ok", Json::Bool(true))];
    assert(members.deep_view() =~= stored_answer()->Object_0);
    object(members)
}

// ---- Trying out ----

/// What the chat model is told.
pub const CHAT_PROBE: &'static str = "Reply with exactly one word: OK";

/// What the embedding model is given.
pub const EMBED_PROBE: &'static str = "connectivity test";

/// How many characters of a reply are shown.
pub const SHOWN_REPLY: usize = 50;

/// What came of a call.
#[derive(Debug)]
pub enum ChatProbe {
    NotConfigured,
    Replied(String),
    Failed(String),
}

#[derive(Debug)]
pub enum EmbedProbe {
    NotConfigured,
    /// The dimensions of the vectors that came back.
    Embedded(Vec<usize>),
    Failed(String),
}

pub open spec fn failure(why: Seq<char>) -> JsonView {
    JsonView::Object(seq![("ok"@, JsonView::Bool(false)), ("error"@, JsonView::Text(why))])
}

pub open spec fn success(key: Seq<char>, value: JsonView) -> JsonView {
    JsonView::Object(seq![("ok"@, JsonView::Bool(true)), (key, value)])
}

pub open spec fn head_of(s: Seq<char>) -> Seq<char> {
    if s.len() <= SHOWN_REPLY {
        s
    } else {
        s.take(SHOWN_REPLY as int)
    }
}

pub open spec fn chat_report(probe: ChatProbe) -> JsonView {
    match probe {
        ChatProbe::NotConfigured => failure("Not configured"@),
        ChatProbe::Replied(reply) => success("reply"@, JsonView::Text(head_of(reply@))),
        ChatProbe::Failed(why) => failure(why@),
    }
}

pub open spec fn embed_report(probe: EmbedProbe) -> JsonView {
    match probe {
        EmbedProbe::NotConfigured => failure("Not configured"@),
        EmbedProbe::Embedded(dims) => if dims@.len() > 0 {
            success("dim"@, JsonView::Number(decimal(dims@[0] as nat)))
        } else {
            failure("Empty response"@)
        },
        EmbedProbe::Failed(why) => failure(why@),
    }
}

pub open spec fn report(chat: JsonView, embed: JsonView) -> JsonView {
    JsonView::Object(seq![("chat"@, chat), ("embed"@, embed)])
}

fn write_failure(why: &str) -> (r: Json)
    ensures
        r.deep_view() == failure(why@),
{
    let members: Vec<Member> = vec![member("ok", Json::Bool(false)), member("error", text(why))];
    assert(members.deep_view() =~= failure(why@)->Object_0);
    object(members)
}

fn write_success(key: &str, value: Json) -> (r: Json)
    ensures
        r.deep_view() == success(key@, value.deep_view()),
{
    let ghost given = value.deep_view();
    let members: Vec<Member> = vec![member("ok", Json::Bool(true)), member(key, value)];
    assert(members.deep_view() =~= success(key@, given)->Object_0);
    object(members)
}

fn write_head(s: &String) -> (r: String)
    ensures
        r@ == head_of(s@),
{
    if s.as_str().unicode_len() <= SHOWN_REPLY {
        s.clone()
    } else {
        s.as_str().substring_char(0, SHOWN_REPLY).to_owned()
    }
}

/// The report on both models; without settings neither is configured.
pub fn test(chat: &ChatProbe, embed: &EmbedProbe) -> (r: Json)
    ensures
        r.deep_view() == report(chat_report(*chat), embed_report(*embed)),
{
    let chat_json: Json = match chat {
        ChatProbe::NotConfigured => write_failure("Not configured"),
        ChatProbe::Replied(reply) => write_success("reply", Json::Text(write_head(reply))),
        ChatProbe::Failed(why) => write_failure(why.as_str()),
    };
    let embed_json: Json = match embed {
        EmbedProbe::NotConfigured => write_failure("Not configured"),
        EmbedProbe::Embedded(dims) => {
            if dims.len() > 0 {
                write_success("dim", Json::Number(write_decimal(dims[0] as u64)))
            } else {
                write_failure("Empty response")
            }
        },
        EmbedProbe::Failed(why) => write_failure(why.as_str()),
    };
    let members: Vec<Member> = vec![member("chat", chat_json), member("embed", embed_json)];
    assert(members.deep_view() =~= report(chat_report(*chat), embed_report(*embed))->Object_0);
    object(members)
}

// ---- Laws ----

/// What is shown does not depend on a key beyond its being there.
pub proof fn law_keys_are_not_shown(a: SettingsView, b: SettingsView)
    requires
        has_key(a.chat_api_key) == has_key(b.chat_api_key),
        has_key(a.embed_api_key) == has_key(b.embed_api_key),
        a == (SettingsView {
            chat_api_key: a.chat_api_key,
            embed_api_key: a.embed_api_key,
            ..b
        }),
    ensures
        shown(Some(a)) == shown(Some(b)),
{
}

/// No empty text is stored, and what is stored is stored as it is when it is
/// sent again.
pub proof fn law_no_blank_is_stored(req: SettingsView)
    ensures
        requested(req).chat_api_key matches Some(k) ==> k.len() > 0,
        requested(req).embed_api_key matches Some(k) ==> k.len() > 0,
        requested(requested(req)) == requested(req),
{
    lemma_nonempty_again(req.chat_base_url);
    lemma_nonempty_again(req.chat_api_key);
    lemma_nonempty_again(req.chat_model);
    lemma_nonempty_again(req.embed_base_url);
    lemma_nonempty_again(req.embed_api_key);
    lemma_nonempty_again(req.embed_model);
}

proof fn lemma_nonempty_again(s: Option<Seq<char>>)
    ensures
        nonempty_text(nonempty_text(s)) == nonempty_text(s),
{
    if let Some(t) = s {
        lemma_trimmed_again(t);
    }
}

/// A key that is missing or blank is not stored, so that the old one stays.
pub proof fn law_a_blank_key_keeps_the_old_one(req: SettingsView)
    ensures
        req.chat_api_key is None ==> requested(req).chat_api_key is None,
        req.chat_api_key matches Some(k) && trimmed(k).len() == 0 ==> requested(
            req,
        ).chat_api_key is None,
        req.embed_api_key is None ==> requested(req).embed_api_key is None,
        req.embed_api_key matches Some(k) && trimmed(k).len() == 0 ==> requested(
            req,
        ).embed_api_key is None,
{
}

} // verus!
