use backsnap::assistant::{
    compose_assistant_text, default_voice_ack, has_query_calls, is_ack_leakage, is_query_action,
    parse_response_from, prepare_fast_path, response_braces_reversed, response_candidates, voice_command_plan, ActionResult,
    ChatMessage, LlmReply, PreparedAssistantResponse, ToolCall,
};
use backsnap::fastparse::try_fast_parse;

fn call(action: &str) -> ToolCall<u8> {
    ToolCall { action: action.to_string(), params: 0 }
}

fn result(action: &str, success: bool, message: &str) -> ActionResult {
    ActionResult { action: action.to_string(), success, message: message.to_string() }
}

fn prepared(reply: &str, fallback: &str, calls: Vec<ToolCall<u8>>) -> PreparedAssistantResponse<u8> {
    PreparedAssistantResponse { reply: reply.to_string(), fallback_text: fallback.to_string(), calls }
}

#[test]
fn ack_leakage_is_recognised() {
    assert!(is_ack_leakage("Yes, sir."));
    assert!(is_ack_leakage("  Standing by sir!"));
    assert!(is_ack_leakage("ok sir"));
    assert!(!is_ack_leakage("turn all the lights off sir"));
    assert!(!is_ack_leakage("Sir, turn on the light"));
}

#[test]
fn query_actions_are_known() {
    assert!(is_query_action("fan_status"));
    assert!(is_query_action("system_status"));
    assert!(!is_query_action("light_power"));
    assert!(has_query_calls(&[call("light_power"), call("timer_info")]));
    assert!(!has_query_calls(&[call("light_power")]));
    assert!(!has_query_calls::<u8>(&[]));
}

#[test]
fn composed_text_without_calls() {
    assert_eq!(compose_assistant_text(&prepared("", "raw output", vec![]), &[]), "raw output");
    assert_eq!(compose_assistant_text(&prepared("Hello", "raw output", vec![]), &[]), "Hello");
}

#[test]
fn composed_text_with_calls() {
    let p = prepared("Done, Sir.", "", vec![call("fan_status"), call("light_power")]);
    let results = vec![
        result("fan_status", true, "Fan 0: 900 RPM"),
        result("light_power", true, "Alles AN"),
        result("timer_info", true, "Backup timer: enabled"),
        result("pi_status", false, "Pi status error: x"),
    ];
    assert_eq!(compose_assistant_text(&p, &results), "Fan 0: 900 RPM. Backup timer: enabled");
    let mutations = vec![result("light_power", true, "ok"), result("govee_power", false, "bad")];
    assert_eq!(compose_assistant_text(&p, &mutations), "Done, Sir.");
    let silent = prepared("", "", vec![call("light_power"), call("govee_power")]);
    assert_eq!(compose_assistant_text(&silent, &mutations), "✓ ok\n✗ bad");
}

#[test]
fn voice_commands_acknowledge_mutations_only() {
    assert_eq!(voice_command_plan(&prepared("Hi", "", vec![])), None);
    assert_eq!(voice_command_plan(&prepared("Checking", "", vec![call("light_power"), call("pi_status")])), None);
    assert_eq!(voice_command_plan(&prepared("Lights on.", "", vec![call("light_power")])), Some("Lights on.".to_string()));
    assert_eq!(voice_command_plan(&prepared("   ", "", vec![call("light_power")])), Some("Understood, Sir.".to_string()));
    assert_eq!(default_voice_ack(&prepared("", "", vec![])), "Understood, Sir.");
}

#[test]
fn fast_path_needs_a_user_message() {
    assert!(prepare_fast_path(&[]).is_none());
    let from_assistant = vec![ChatMessage { role: "assistant".into(), content: "licht aus".into() }];
    assert!(prepare_fast_path(&from_assistant).is_none());
    let history = vec![ChatMessage { role: "user".into(), content: "licht aus".into() }];
    let fast = try_fast_parse("licht aus");
    let prepared = prepare_fast_path(&history);
    assert_eq!(fast.is_some(), prepared.is_some());
    if let (Some((reply, acts)), Some(p)) = (fast, prepared) {
        assert_eq!(p.reply, reply);
        assert!(p.fallback_text.is_empty());
        assert_eq!(p.calls.len(), acts.len());
        for (c, a) in p.calls.iter().zip(acts.iter()) {
            assert_eq!(c.action, a.action);
            assert_eq!(c.params, a.params);
        }
    }
}

#[test]
fn response_candidates_strip_fences() {
    let (trimmed, whole, slice) = response_candidates("```json\n{\"reply\":\"hi\"}\n```");
    assert_eq!(trimmed, "```json\n{\"reply\":\"hi\"}\n```");
    assert_eq!(whole.as_deref(), Some("{\"reply\":\"hi\"}"));
    assert_eq!(slice.as_deref(), Some("{\"reply\":\"hi\"}"));
    let (trimmed, whole, slice) = response_candidates("  Sure! {\"a\":1} done  ");
    assert_eq!(trimmed, "Sure! {\"a\":1} done");
    assert_eq!(whole, None);
    assert_eq!(slice.as_deref(), Some("{\"a\":1}"));
    let (_, whole, slice) = response_candidates("plain words");
    assert_eq!((whole, slice), (None, None));
}

#[test]
fn parsed_reply_decides() {
    let actions = LlmReply { reply: Some("On it".to_string()), actions: vec![call("light_power")] };
    let (calls, reply) = parse_response_from("raw".to_string(), Some(actions), None);
    assert_eq!(calls.map(|c| c.len()), Some(1));
    assert_eq!(reply, "On it");
    let talk = LlmReply::<u8> { reply: Some("Hello".to_string()), actions: vec![] };
    let (calls, reply) = parse_response_from("raw".to_string(), Some(talk), None);
    assert!(calls.is_none());
    assert_eq!(reply, "Hello");
    let empty = LlmReply::<u8> { reply: None, actions: vec![] };
    let second = LlmReply::<u8> { reply: Some("From slice".to_string()), actions: vec![] };
    let (calls, reply) = parse_response_from("raw".to_string(), Some(empty), Some(second));
    assert!(calls.is_none());
    assert_eq!(reply, "From slice");
    let (calls, reply) = parse_response_from::<u8>("raw text".to_string(), None, None);
    assert!(calls.is_none());
    assert_eq!(reply, "raw text");
}

#[test]
fn reversed_braces_are_detected() {
    assert!(response_braces_reversed("} text {"));
    assert!(!response_braces_reversed("}{"));
    assert!(!response_braces_reversed("{\"reply\": \"x\"}"));
    assert!(!response_braces_reversed("no json here"));
    assert!(!response_braces_reversed("```json\n{\"reply\": \"x\"}\n```"));
}
