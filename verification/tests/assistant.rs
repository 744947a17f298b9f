use ainc_mac::assistant::{
    account_label, call_failed, call_step, refuses, CallStep, conversation_input, conversation_messages, models_of_page,
    sign_in_link, ReplyCollector, ReplyEvent, ReplyOutcome, Turn,
};
use serde_json::Value;

fn turn(id: i64, prompt: &str, response: Option<&str>, error: Option<&str>) -> Turn {
    Turn {
        id,
        prompt: prompt.into(),
        response: response.map(Into::into),
        error: error.map(Into::into),
    }
}

#[test]
fn retry_context_excludes_failed_and_future_turns() {
    let history = vec![
        Turn { id: 1, prompt: "one".into(), response: Some("reply".into()), error: None },
        Turn { id: 2, prompt: "failed".into(), response: None, error: Some("error".into()) },
        Turn { id: 4, prompt: "future".into(), response: Some("later".into()), error: None },
    ];
    let current = Turn { id: 3, prompt: "next\nline".into(), response: None, error: None };
    let value: Value = serde_json::from_str(&conversation_input(&history, &current)).unwrap();
    assert_eq!(value["conversation"].as_array().unwrap().len(), 3);
    assert_eq!(value["conversation"][2]["content"], "next\nline");
}

#[test]
fn context_keeps_the_last_twenty_answered_turns_in_order() {
    let history: Vec<Turn> = (1..=25).map(|i| turn(i, &format!("p{i}"), Some(&format!("r{i}")), None)).collect();
    let current = turn(30, "now", None, None);
    let messages = conversation_messages(&history, &current);
    assert_eq!(messages.len(), 41);
    assert_eq!(messages[0], ("user".to_string(), "p6".to_string()));
    assert_eq!(messages[1], ("assistant".to_string(), "r6".to_string()));
    assert_eq!(messages[39], ("assistant".to_string(), "r25".to_string()));
    assert_eq!(messages[40], ("user".to_string(), "now".to_string()));
    let json = conversation_input(&history, &current);
    assert!(json.starts_with("{\"conversation\":[{\"content\":\"p6\",\"role\":\"user\"}"));
}

#[test]
fn replies_end_in_text_or_a_reason() {
    let mut reply = ReplyCollector::new();
    assert_eq!(reply.take(&ReplyEvent::Other), ReplyOutcome::Waiting);
    assert_eq!(reply.take(&ReplyEvent::AgentMessage("Fixture reply".into())), ReplyOutcome::Waiting);
    assert_eq!(reply.take(&ReplyEvent::AgentMessage("More".into())), ReplyOutcome::Waiting);
    assert_eq!(
        reply.take(&ReplyEvent::TurnCompleted(true)),
        ReplyOutcome::Reply("Fixture reply\n\nMore".into())
    );
    let mut empty = ReplyCollector::new();
    assert_eq!(
        empty.take(&ReplyEvent::TurnCompleted(true)),
        ReplyOutcome::Failed("Codex returned no text. Retry when ready.".into())
    );
    assert_eq!(
        empty.take(&ReplyEvent::TurnCompleted(false)),
        ReplyOutcome::Failed("Codex could not finish this reply. Check your subscription or retry.".into())
    );
    let mut large = ReplyCollector::new();
    assert_eq!(large.take(&ReplyEvent::AgentMessage("x".repeat(1_048_576))), ReplyOutcome::Waiting);
    assert_eq!(
        large.take(&ReplyEvent::AgentMessage("y".into())),
        ReplyOutcome::Failed("Codex reply was too large. Try a shorter request.".into())
    );
}

#[test]
fn accounts_links_and_failures_read_safely() {
    assert_eq!(
        account_label("chatgpt", Some("fixture@example.test"), Some("test")).as_deref(),
        Some("fixture@example.test · test")
    );
    assert_eq!(account_label("chatgpt", None, None).as_deref(), Some("ChatGPT · Connected"));
    assert_eq!(account_label("apiKey", Some("a@b"), None), None);
    assert_eq!(sign_in_link(Some("https://auth.example/x")), Ok("https://auth.example/x".to_string()));
    assert_eq!(sign_in_link(Some("http://auth.example")), Err("Codex returned an invalid sign-in link".to_string()));
    assert_eq!(sign_in_link(None), Err("Codex did not return a sign-in link".to_string()));
    let error = call_failed("example/error");
    assert!(error.contains("example/error"));
    assert!(!error.contains("private backend detail"));
}

#[test]
fn models_need_an_id_and_a_name() {
    let page = vec![
        (Some("gpt-5".to_string()), Some("GPT-5".to_string())),
        (Some("hidden".to_string()), None),
        (None, Some("Nameless".to_string())),
    ];
    let models = models_of_page(&page);
    assert_eq!(models.len(), 1);
    assert_eq!(models[0].id, "gpt-5");
    assert_eq!(models[0].name, "GPT-5");
}

#[test]
fn a_call_ends_only_at_its_own_answer() {
    assert_eq!(call_step(3, Some(3), false), CallStep::Answered);
    assert_eq!(call_step(3, Some(3), true), CallStep::Refused);
    assert_eq!(call_step(3, Some(2), false), CallStep::Wait);
    assert_eq!(call_step(3, None, true), CallStep::Wait);
    assert!(refuses(true, true));
    assert!(!refuses(true, false));
    assert!(!refuses(false, true));
}
