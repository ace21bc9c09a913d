use utopia::json::{Json, Member};
use utopia::settings::{
    brings_a_model, get, jobs_after_put, put, stored, test as report, ChatProbe, EmbedProbe,
    PutSettingsReq, Settings, CHAT_PROBE, EMBED_PROBE,
};

fn m(key: &str, value: Json) -> Member {
    Member { key: key.into(), value }
}

fn t(s: &str) -> Json {
    Json::Text(s.into())
}

fn settings(chat_key: Option<&str>, embed_key: Option<&str>) -> Settings {
    Settings {
        chat_base_url: Some("https://chat".into()),
        chat_api_key: chat_key.map(str::to_string),
        chat_model: Some("m".into()),
        embed_base_url: None,
        embed_api_key: embed_key.map(str::to_string),
        embed_model: None,
        embed_dim: Some(1024),
    }
}

#[test]
fn keys_are_shown_only_as_present() {
    let shown = get(&Some(settings(Some("secret"), Some(""))));
    assert_eq!(
        shown,
        Json::Object(vec![
            m("chat_base_url", t("https://chat")),
            m("chat_model", t("m")),
            m("has_chat_key", Json::Bool(true)),
            m("embed_base_url", Json::Null),
            m("embed_model", Json::Null),
            m("embed_dim", Json::Number("1024".into())),
            m("has_embed_key", Json::Bool(false)),
        ])
    );
    assert_eq!(shown, get(&Some(settings(Some("another"), None))));
    assert_eq!(get(&None), Json::Object(vec![]));
}

fn request(key: Option<&str>, model: Option<&str>) -> PutSettingsReq {
    PutSettingsReq {
        chat_base_url: Some(" https://chat ".into()),
        chat_api_key: key.map(str::to_string),
        chat_model: Some("\u{3000}".into()),
        embed_base_url: None,
        embed_api_key: None,
        embed_model: model.map(str::to_string),
        embed_dim: Some(-1),
    }
}

#[test]
fn blanks_are_not_stored() {
    let s = put(&request(Some("  "), Some(" e ")));
    assert_eq!(s.chat_base_url.as_deref(), Some("https://chat"));
    assert_eq!(s.chat_api_key, None);
    assert_eq!(s.chat_model, None);
    assert_eq!(s.embed_base_url, None);
    assert_eq!(s.embed_model.as_deref(), Some("e"));
    assert_eq!(s.embed_dim, Some(-1));
    assert_eq!(put(&request(Some(" k\n"), None)).chat_api_key.as_deref(), Some("k"));
}

#[test]
fn an_embedding_model_wakes_every_knowledge_base() {
    let jobs = jobs_after_put(&request(None, Some("e")), &vec![1, 2]);
    assert_eq!(jobs.len(), 2);
    assert_eq!(jobs[0].kind, "embed_ontology");
    assert_eq!(
        jobs[1].payload,
        Json::Object(vec![m("kb_id", t("00000000-0000-0000-0000-000000000002"))])
    );
    assert!(brings_a_model(&request(None, Some("e"))));
    assert!(!brings_a_model(&request(None, Some(" "))));
    assert!(jobs_after_put(&request(None, Some(" ")), &vec![1, 2]).is_empty());
    assert_eq!(stored(), Json::Object(vec![m("ok", Json::Bool(true))]));
}

fn failed(why: &str) -> Json {
    Json::Object(vec![m("ok", Json::Bool(false)), m("error", t(why))])
}

#[test]
fn both_models_are_reported_on() {
    assert_eq!(
        report(&ChatProbe::NotConfigured, &EmbedProbe::NotConfigured),
        Json::Object(vec![
            m("chat", failed("Not configured")),
            m("embed", failed("Not configured")),
        ])
    );
    let long: String = "答".repeat(60);
    let short: String = "答".repeat(50);
    assert_eq!(
        report(&ChatProbe::Replied(long), &EmbedProbe::Embedded(vec![768, 3])),
        Json::Object(vec![
            m("chat", Json::Object(vec![m("ok", Json::Bool(true)), m("reply", t(&short))])),
            m(
                "embed",
                Json::Object(vec![m("ok", Json::Bool(true)), m("dim", Json::Number("768".into()))]),
            ),
        ])
    );
    assert_eq!(
        report(&ChatProbe::Replied("OK".into()), &EmbedProbe::Embedded(vec![])),
        Json::Object(vec![
            m("chat", Json::Object(vec![m("ok", Json::Bool(true)), m("reply", t("OK"))])),
            m("embed", failed("Empty response")),
        ])
    );
    assert_eq!(
        report(&ChatProbe::Failed("401".into()), &EmbedProbe::Failed("timeout".into())),
        Json::Object(vec![m("chat", failed("401")), m("embed", failed("timeout"))])
    );
    assert_eq!(CHAT_PROBE, "Reply with exactly one word: OK");
    assert_eq!(EMBED_PROBE, "connectivity test");
}
