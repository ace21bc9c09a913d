use utopia::chat_policy::{
    answer_rests_on_nothing, classify_nudge_response, force_final_answer_message,
    no_tool_on_empty_answer, should_degrade_to_one_shot_rag, should_nudge_stalled_turn,
    AfterNudge, AssistantTurn, ToolCall,
};
use utopia::json::{Json, Member};

fn no_calls() -> Vec<ToolCall> {
    Vec::new()
}

fn field<'a>(m: &'a Json, key: &str) -> &'a str {
    match m {
        Json::Object(members) => match &members.iter().find(|x| x.key == key).unwrap().value {
            Json::Text(s) => s.as_str(),
            other => panic!("not a text: {other:?}"),
        },
        other => panic!("not an object: {other:?}"),
    }
}

#[test]
fn no_tool_on_empty_answer_fires_on_empty() {
    assert_eq!(
        no_tool_on_empty_answer("", &no_calls()),
        Some("Model returned an empty answer")
    );
}

#[test]
fn no_tool_on_empty_answer_silent_when_text_present() {
    assert_eq!(
        no_tool_on_empty_answer("好的，让我查一下。", &no_calls()),
        None
    );
}

#[test]
fn force_final_answer_message_has_a_user_role() {
    let m = force_final_answer_message();
    assert_eq!(field(&m, "role"), "user");
    assert!(field(&m, "content").contains("Tool budget exhausted"));
}

#[test]
fn nudge_only_fires_once() {
    let steps: Vec<Json> = Vec::new();
    let sources: Vec<Json> = Vec::new();
    assert!(should_nudge_stalled_turn(
        false,
        &steps,
        &sources,
        &no_calls()
    ));
    assert!(!should_nudge_stalled_turn(
        true,
        &steps,
        &sources,
        &no_calls()
    ));
}

#[test]
fn nudge_does_not_fire_when_tools_were_called() {
    let steps: Vec<Json> = Vec::new();
    let sources: Vec<Json> = Vec::new();
    let calls = vec![ToolCall {
        id: "x".into(),
        name: "search_chunks".into(),
        arguments: "{}".into(),
    }];
    assert!(!should_nudge_stalled_turn(false, &steps, &sources, &calls));
}

#[test]
fn nudge_does_not_fire_when_sources_are_present() {
    let steps: Vec<Json> = Vec::new();
    let sources: Vec<Json> = vec![Json::Object(vec![Member {
        key: "n".into(),
        value: Json::Number("1".into()),
    }])];
    assert!(!should_nudge_stalled_turn(
        false,
        &steps,
        &sources,
        &no_calls()
    ));
}

#[test]
fn nudge_classifies_tools_done_and_stalled() {
    let tools = AssistantTurn {
        content: None,
        tool_calls: vec![ToolCall {
            id: "x".into(),
            name: "search_chunks".into(),
            arguments: "{}".into(),
        }],
    };
    assert_eq!(classify_nudge_response(&tools), AfterNudge::Tools);

    let done = AssistantTurn {
        content: Some("done".into()),
        tool_calls: vec![],
    };
    assert_eq!(classify_nudge_response(&done), AfterNudge::Done);

    let silent = AssistantTurn {
        content: Some("".into()),
        tool_calls: vec![],
    };
    assert_eq!(classify_nudge_response(&silent), AfterNudge::Done);

    let stalled = AssistantTurn {
        content: Some("请稍等，我去搜一下".into()),
        tool_calls: vec![],
    };
    assert_eq!(classify_nudge_response(&stalled), AfterNudge::Stalled);
}

#[test]
fn degradation_only_on_round_zero() {
    assert!(should_degrade_to_one_shot_rag(0, true));
    assert!(!should_degrade_to_one_shot_rag(1, true));
    assert!(!should_degrade_to_one_shot_rag(0, false));
}

fn turn(content: Option<&str>) -> AssistantTurn {
    AssistantTurn { content: content.map(str::to_string), tool_calls: vec![] }
}

#[test]
fn done_is_heard_through_case_and_signs() {
    for text in ["DONE", " Done. ", "**done**", "「done」", "...", "—"] {
        assert_eq!(classify_nudge_response(&turn(Some(text))), AfterNudge::Done, "{text}");
    }
    assert_eq!(classify_nudge_response(&turn(None)), AfterNudge::Done);
    for text in ["done and dusted", "undone", "完成"] {
        assert_eq!(classify_nudge_response(&turn(Some(text))), AfterNudge::Stalled, "{text}");
    }
}

#[test]
fn an_answer_with_steps_rests_on_something() {
    assert!(answer_rests_on_nothing(&[], &[]));
    assert!(!answer_rests_on_nothing(&[Json::Null], &[]));
    assert!(!should_nudge_stalled_turn(false, &[Json::Null], &[], &no_calls()));
}

#[test]
fn a_tool_call_is_no_empty_answer() {
    let calls = vec![ToolCall { id: "x".into(), name: "t".into(), arguments: "".into() }];
    assert_eq!(no_tool_on_empty_answer("", &calls), None);
}
