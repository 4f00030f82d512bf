use actor::flow::{
    user_message_parts, ContentPart,
    after_tool_call, collect_stream, expects_response, FinishReason as Finish, StreamEvent as Ev, ToolOutcome as TO,
    build_result, call_gate, collect_event, composing_end, default_visual_mime, escalates, finish_reason_name,
    invalid_json_reply, invalid_tool_json, invalid_tool_json_error, is_model_visible_url, looks_like_json_text,
    max_attempts, redact_prompt_image_url, required_vision, requires_vision, retry_warning, route_tool,
    session_done, should_redact_prompt_trace_key, shows_pending_messages, turn_stops_after_tools,
    turn_stops_before_tools, unknown_tool_reply, vision_input, vision_unavailable_note, CallGate, Collected,
    ComposingEnd, FinishReason, SessionResult, StreamEvent, ToolRoute, VisionInput,
};
use actor::model::Thought;
use actor::messaging::{prepare_send, settle_send, DeliveryTarget};
use actor::session::{remember_injected_message as remember_injected};
use actor::model::{ActionKind, InboundMessage, MediaAttachment, MediaKind, SessionKind};
use actor::session::SessionState;
use actor::tools::decision::MindVerdict;

fn attachment(kind: MediaKind) -> MediaAttachment {
    MediaAttachment { kind, asset_id: Some("media-1".to_string()), url: None, mime: None, filename: None, size: None }
}

fn inbound_with(kind: MediaKind) -> InboundMessage {
    InboundMessage {
        message_id: "msg-1".to_string(),
        gateway_id: "relay".to_string(),
        sender_external_id: "user-1".to_string(),
        sender_display_name: None,
        reply_external_id: "local".to_string(),
        conversation: "relay:local".to_string(),
        group: None,
        identity: None,
        profile: None,
        person: None,
        content: "look".to_string(),
        attachments: vec![attachment(kind)],
        timestamp: 0,
    }
}

#[test]
fn tests_visual_attachments_require_vision() {
    let msg = inbound_with(MediaKind::Video);
    assert!(required_vision(&vec![msg], &vec![]));
}

#[test]
fn message_tests_visual_attachments_require_vision() {
    let msg = inbound_with(MediaKind::Video);
    assert!(required_vision(&vec![msg], &vec![]));
}

#[test]
fn injected_visual_attachments_require_vision() {
    let msg = inbound_with(MediaKind::Image);
    assert!(required_vision(&vec![], &vec![msg]));
}

#[test]
fn tests_file_attachments_do_not_require_vision() {
    let msg = inbound_with(MediaKind::File);
    assert!(!required_vision(&vec![msg], &vec![]));
}

#[test]
fn message_tests_file_attachments_do_not_require_vision() {
    let msg = inbound_with(MediaKind::File);
    assert!(!required_vision(&vec![msg], &vec![]));
    assert!(requires_vision(MediaKind::Sticker));
    assert!(!requires_vision(MediaKind::Audio));
}

#[test]
fn pictures_reach_the_model_by_url_or_inline() {
    let mut a = attachment(MediaKind::Image);
    a.url = Some("https://example.com/a.png".to_string());
    assert!(matches!(vision_input(&a), VisionInput::Url(u) if u == "https://example.com/a.png"));
    a.url = Some("file:///tmp/a.png".to_string());
    assert!(matches!(vision_input(&a), VisionInput::StoredAsset(id, mime) if id == "media-1" && mime == "image/png"));
    let sticker = attachment(MediaKind::Sticker);
    assert!(matches!(vision_input(&sticker), VisionInput::StoredAsset(_, mime) if mime == "image/webp"));
    let mut file = attachment(MediaKind::File);
    assert!(matches!(vision_input(&file), VisionInput::Skip));
    file.mime = Some("image/jpeg".to_string());
    assert!(matches!(vision_input(&file), VisionInput::StoredAsset(_, mime) if mime == "image/jpeg"));
    assert!(is_model_visible_url("data:image/png;base64,AAAA"));
    assert!(!is_model_visible_url("ftp://x"));
    assert_eq!(default_visual_mime(MediaKind::Video), "image/png");
}

#[test]
fn retries_stop_after_a_delivery_attempt() {
    let kind = SessionKind::Action(ActionKind::Respond);
    assert_eq!(max_attempts(kind, 3), 3);
    assert_eq!(max_attempts(SessionKind::Action(ActionKind::Review), 3), 1);
    assert_eq!(max_attempts(SessionKind::Mind, 3), 1);
    let mut state = SessionState::new(&vec![]);
    assert!(!session_done(false, &state, true, 1, 3));
    state.attempted_send = true;
    assert!(session_done(false, &state, true, 1, 3));
    state.attempted_send = false;
    assert!(session_done(false, &state, true, 3, 3));
    assert!(session_done(true, &state, true, 1, 3));
    assert!(escalates(3, true, 2));
    assert!(!escalates(2, true, 2));
    assert!(retry_warning(1).is_none());
    assert!(retry_warning(2).expect("warning").starts_with("IMPORTANT: Your previous attempt failed to call send_message."));
    assert!(vision_unavailable_note(true, false).is_some());
    assert!(vision_unavailable_note(true, true).is_none());
}

#[test]
fn turns_end_on_decisions_or_stops() {
    assert!(turn_stops_before_tools(true, 2));
    assert!(turn_stops_before_tools(false, 0));
    assert!(!turn_stops_before_tools(false, 1));
    assert!(turn_stops_after_tools(false, FinishReason::Length));
    assert!(!turn_stops_after_tools(false, FinishReason::ToolCalls));
    let mut state = SessionState::new(&vec![]);
    assert!(shows_pending_messages(true, &state));
    state.responded = true;
    assert!(!shows_pending_messages(true, &state));
    assert!(shows_pending_messages(false, &state));
    assert_eq!(finish_reason_name(FinishReason::ContentFilter), "content_filter");
}

#[test]
fn composing_is_released_unless_a_send_released_it() {
    let mut state = SessionState::new(&vec![]);
    assert_eq!(composing_end(SessionKind::Mind, &state), ComposingEnd::Release);
    assert_eq!(composing_end(SessionKind::Action(ActionKind::Respond), &state), ComposingEnd::Release);
    state.composing_released = true;
    assert_eq!(composing_end(SessionKind::Action(ActionKind::Respond), &state), ComposingEnd::Disarm);
    assert_eq!(composing_end(SessionKind::Mind, &state), ComposingEnd::Release);
}

#[test]
fn action_outcome_carries_session_artifacts() {
    let mut state = SessionState::new(&vec![]);
    state.responded = true;
    state.attempted_send = true;
    state.memories_formed = vec!["memory-formed".to_string()];
    state.recalled_memory_ids = vec!["memory-recalled".to_string()];
    match build_result(SessionKind::Action(ActionKind::Respond), state, None, 1, false, true) {
        SessionResult::Action(outcome) => {
            assert!(outcome.responded);
            assert!(outcome.keeps_delta);
            assert_eq!(outcome.memories_formed, vec!["memory-formed".to_string()]);
            assert_eq!(outcome.recalled_memory_ids, vec!["memory-recalled".to_string()]);
            assert_eq!(outcome.attempts, 1);
            assert!(!outcome.had_injections);
        }
        SessionResult::Mind(_) => panic!("expected action outcome"),
    }
    let mut state = SessionState::new(&vec![]);
    state.responded = true;
    match build_result(SessionKind::Action(ActionKind::Respond), state, None, 2, true, true) {
        SessionResult::Action(outcome) => {
            assert!(!outcome.responded);
            assert!(!outcome.keeps_delta);
            assert!(outcome.cancelled);
        }
        SessionResult::Mind(_) => panic!("expected action outcome"),
    }
    assert!(matches!(
        build_result(SessionKind::Mind, SessionState::new(&vec![]), None, 1, true, false),
        SessionResult::Mind(MindVerdict::Drop)
    ));
    assert!(matches!(
        build_result(SessionKind::Mind, SessionState::new(&vec![]), None, 1, false, false),
        SessionResult::Mind(MindVerdict::Respond { style_directive: None })
    ));
}

#[test]
fn streamed_events_accumulate_into_a_turn() {
    let mut c = Collected {
        text: String::new(),
        reasoning: String::new(),
        partial_tools: vec![],
        finish: FinishReason::Stop,
        input_tokens: None,
        output_tokens: None,
        decision: None,
    };
    collect_event(&mut c, StreamEvent::TextDelta("Hel".to_string()));
    collect_event(&mut c, StreamEvent::TextDelta("lo".to_string()));
    collect_event(&mut c, StreamEvent::ToolCallDelta { index: 1, arguments_delta: "{\"a\":".to_string() });
    collect_event(&mut c, StreamEvent::ToolCallBegin { index: 1, id: "call-2".to_string(), name: "send_message".to_string() });
    collect_event(&mut c, StreamEvent::ToolCallBegin { index: 1, id: String::new(), name: String::new() });
    collect_event(&mut c, StreamEvent::ToolCallDelta { index: 1, arguments_delta: "1}".to_string() });
    collect_event(&mut c, StreamEvent::Finish(FinishReason::ToolCalls));
    collect_event(&mut c, StreamEvent::Usage { input_tokens: 10, output_tokens: 3 });
    assert_eq!(c.text, "Hello");
    assert_eq!(c.partial_tools.len(), 2);
    assert_eq!(c.partial_tools[0].name, "");
    assert_eq!(c.partial_tools[1].id, "call-2");
    assert_eq!(c.partial_tools[1].name, "send_message");
    assert_eq!(c.partial_tools[1].arguments, "{\"a\":1}");
    assert_eq!(c.finish, FinishReason::ToolCalls);
    assert_eq!((c.input_tokens, c.output_tokens), (Some(10), Some(3)));
}

#[test]
fn invalid_tool_arguments_are_reported_not_run() {
    let args = invalid_tool_json("{\"content\":".to_string(), "EOF while parsing".to_string());
    assert_eq!(invalid_tool_json_error(&args).as_deref(), Some("EOF while parsing"));
    assert_eq!(invalid_tool_json_error(&actor::json::Json::Null), None);
    assert_eq!(invalid_json_reply("EOF"), "Tool arguments were invalid JSON: EOF. No tool was executed.");
    assert_eq!(call_gate(true, true), CallGate::InvalidJson);
    assert_eq!(call_gate(false, false), CallGate::Denied);
    assert_eq!(call_gate(false, true), CallGate::Run);
}

#[test]
fn tool_names_route_to_their_handlers() {
    assert_eq!(route_tool("form_memory"), ToolRoute::FormMemory);
    assert_eq!(route_tool("get_session_elapsed"), ToolRoute::GetSessionElapsed);
    assert_eq!(route_tool("teleport"), ToolRoute::Unknown);
    assert_eq!(unknown_tool_reply("teleport"), "Unknown tool: teleport");
}

#[test]
fn prompt_snapshots_redact_text_keys_and_images() {
    for key in ["content", "text", "external_id", "raw_arguments", "url"] {
        assert!(should_redact_prompt_trace_key(key), "{key}");
    }
    assert!(!should_redact_prompt_trace_key("safe"));
    assert!(!should_redact_prompt_trace_key("metadata"));
    assert_eq!(redact_prompt_image_url("data:image/png;base64,secret-bytes"), "[inline image redacted]");
    assert_eq!(redact_prompt_image_url("https://x"), "[image url redacted]");
    assert!(looks_like_json_text("  {\"a\":1}"));
    assert!(looks_like_json_text("\n[1]"));
    assert!(!looks_like_json_text("plain"));
    assert!(!looks_like_json_text("   "));
}

fn jobj(entries: Vec<(&str, actor::json::Json)>) -> actor::json::Json {
    actor::json::Json::Object(entries.into_iter().map(|(k, v)| (k.to_string(), v)).collect())
}

fn jstr(s: &str) -> actor::json::Json {
    actor::json::Json::Str(s.to_string())
}

fn text_of<'a>(j: &'a actor::json::Json, path: &[&str]) -> Option<&'a str> {
    let mut cur = j;
    for k in path {
        cur = cur.get(k)?;
    }
    match cur {
        actor::json::Json::Str(s) => Some(s.as_str()),
        _ => None,
    }
}

#[test]
fn message_metadata_keeps_fields_and_embeds_attachments() {
    let attachments = actor::json::Json::Array(vec![jobj(vec![("kind", jstr("Sticker")), ("asset_id", jstr("media-1")), ("mime", jstr("image/webp"))])]);
    let metadata = actor::flow::message_metadata(
        jobj(vec![("sender", jstr("user")), ("source", jstr("stale"))]),
        jobj(vec![("message_id", jstr("msg-1"))]),
        Some(attachments),
    );
    assert_eq!(text_of(&metadata, &["sender"]), Some("user"));
    assert_eq!(text_of(&metadata, &["source", "message_id"]), Some("msg-1"));
    match metadata.get("attachments") {
        Some(actor::json::Json::Array(items)) => {
            assert_eq!(text_of(&items[0], &["kind"]), Some("Sticker"));
            assert_eq!(text_of(&items[0], &["asset_id"]), Some("media-1"));
            assert_eq!(text_of(&items[0], &["mime"]), Some("image/webp"));
        }
        _ => panic!("attachments missing"),
    }
    let wrapped = actor::flow::message_metadata(jstr("raw"), jobj(vec![]), None);
    assert_eq!(text_of(&wrapped, &["source_metadata"]), Some("raw"));
    assert!(wrapped.get("attachments").is_none());
    let fresh = actor::flow::message_metadata(actor::json::Json::Null, jobj(vec![]), None);
    assert!(fresh.get("source").is_some());
    assert!(fresh.get("source_metadata").is_none());
}

#[test]
fn a_decision_ends_the_tool_loop_and_results_are_shown() {
    let mut verdict: Option<MindVerdict> = None;
    assert_eq!(after_tool_call(TO::Result("ok".to_string()), &mut verdict), Some("ok".to_string()));
    assert!(verdict.is_none());
    assert_eq!(after_tool_call(TO::Decision(MindVerdict::Drop), &mut verdict), None);
    assert!(matches!(verdict, Some(MindVerdict::Drop)));
}

#[test]
fn a_stream_folds_into_one_turn() {
    let c = collect_stream(vec![
        Ev::TextDelta("Hel".to_string()),
        Ev::ReasoningDelta("think".to_string()),
        Ev::TextDelta("lo".to_string()),
        Ev::ToolCallBegin { index: 0, id: "call-1".to_string(), name: "send_message".to_string() },
        Ev::ToolCallDelta { index: 0, arguments_delta: "{\"content\":".to_string() },
        Ev::ToolCallDelta { index: 0, arguments_delta: "\"hi\"}".to_string() },
        Ev::Usage { input_tokens: 5, output_tokens: 7 },
        Ev::Finish(Finish::ToolCalls),
    ]);
    assert_eq!(c.text, "Hello");
    assert_eq!(c.reasoning, "think");
    assert_eq!(c.partial_tools.len(), 1);
    assert_eq!(c.partial_tools[0].name, "send_message");
    assert_eq!(c.partial_tools[0].arguments, "{\"content\":\"hi\"}");
    assert_eq!(c.finish, Finish::ToolCalls);
    assert_eq!((c.input_tokens, c.output_tokens), (Some(5), Some(7)));
    let empty = collect_stream(vec![]);
    assert_eq!(empty.finish, Finish::Stop);
    assert!(empty.text.is_empty());
}

#[test]
fn action_outcome_carries_review_artifacts() {
    let mut state = SessionState::new(&vec![]);
    state.responded = true;
    state.attempted_send = true;
    state.thoughts.push(Thought {
        timestamp: 1000,
        kind: "observation".to_string(),
        content: "Sam sounded rushed.".to_string(),
        importance_micros: 800_000,
        confidence_micros: 700_000,
        action_id: Some("action-test".to_string()),
        memories_accessed: vec!["memory-recalled".to_string()],
    });
    state.memories_formed.push("memory-formed".to_string());
    state.recalled_memory_ids.push("memory-recalled".to_string());
    match build_result(SessionKind::Action(ActionKind::Respond), state, None, 1, false, false) {
        SessionResult::Action(outcome) => {
            assert!(outcome.responded);
            assert_eq!(outcome.thoughts.len(), 1);
            assert_eq!(outcome.thoughts[0].content, "Sam sounded rushed.");
            assert_eq!(outcome.memories_formed, vec!["memory-formed".to_string()]);
            assert_eq!(outcome.recalled_memory_ids, vec!["memory-recalled".to_string()]);
        }
        SessionResult::Mind(_) => panic!("expected action outcome"),
    }
}

#[test]
fn stored_pictures_are_inlined_after_the_text() {
    let sticker = MediaAttachment {
        kind: MediaKind::Sticker,
        asset_id: Some("media-1".to_string()),
        url: None,
        mime: None,
        filename: None,
        size: None,
    };
    let audio = MediaAttachment { kind: MediaKind::Audio, ..sticker.clone() };
    let parts = user_message_parts(&"look".to_string(), &vec![sticker.clone(), audio, sticker], vec![Some(b"hi".to_vec()), Some(vec![1]), None]);
    assert_eq!(parts.len(), 2);
    assert!(matches!(&parts[0], ContentPart::Text(t) if t == "look"));
    assert!(matches!(&parts[1], ContentPart::ImageUrl(u) if u == "data:image/webp;base64,aGk="));
}

fn reply_target() -> DeliveryTarget {
    DeliveryTarget { gateway_id: "relay".to_string(), external_id: "local".to_string(), channel: "relay:local".to_string() }
}

fn inbound_msg(id: &str) -> InboundMessage {
    InboundMessage {
        message_id: id.to_string(),
        gateway_id: "relay".to_string(),
        sender_external_id: "user".to_string(),
        sender_display_name: None,
        reply_external_id: "local".to_string(),
        conversation: "relay:local".to_string(),
        group: None,
        identity: None,
        profile: None,
        person: None,
        content: "hello".to_string(),
        attachments: vec![],
        timestamp: 0,
    }
}

#[test]
fn response_action_retries_when_model_emits_text_without_tool_call_scenario() {
    let kind = SessionKind::Action(ActionKind::Respond);
    let expects = expects_response(kind);
    let max = max_attempts(kind, 2);
    let mut state = SessionState::new(&vec![inbound_msg("msg-1")]);
    // First attempt: the model answers with text only; the turn ends and the
    // action is tried again.
    assert!(turn_stops_before_tools(false, 0));
    assert!(!session_done(false, &state, expects, 1, max));
    // Second attempt: the model calls send_message and delivery succeeds.
    let target = prepare_send(&mut state, Some(reply_target())).ok().expect("target");
    settle_send(
        &mut state, &target, &None, &Some("relay:local".to_string()), &"visible reply".to_string(), None,
        &"out-1".to_string(), &"action-1".to_string(), &Ok(()), 1000,
    );
    assert!(session_done(false, &state, expects, 2, max));
    match build_result(kind, state, None, 2, false, true) {
        SessionResult::Action(o) => {
            assert!(o.responded);
            assert_eq!(o.attempts, 2);
        }
        SessionResult::Mind(_) => panic!("expected an action outcome"),
    }
}

#[test]
fn response_action_stops_retrying_after_delivery_attempt_fails_scenario() {
    let kind = SessionKind::Action(ActionKind::Respond);
    let expects = expects_response(kind);
    let max = max_attempts(kind, 3);
    let mut state = SessionState::new(&vec![inbound_msg("msg-1")]);
    let target = prepare_send(&mut state, Some(reply_target())).ok().expect("target");
    let records = settle_send(
        &mut state, &target, &None, &Some("relay:local".to_string()), &"visible reply".to_string(), None,
        &"out-1".to_string(), &"action-1".to_string(), &Err("gateway offline".to_string()), 1000,
    );
    assert_eq!(records.delivery.status, "failed");
    assert!(session_done(false, &state, expects, 1, max));
    match build_result(kind, state, None, 1, false, true) {
        SessionResult::Action(o) => {
            assert!(!o.responded);
            assert!(o.attempted_send);
            assert_eq!(o.attempts, 1);
        }
        SessionResult::Mind(_) => panic!("expected an action outcome"),
    }
}

#[test]
fn response_action_reemits_injected_messages_not_presented_before_send_scenario() {
    let kind = SessionKind::Action(ActionKind::Respond);
    let expects = expects_response(kind);
    let mut state = SessionState::new(&vec![inbound_msg("msg-1")]);
    assert!(remember_injected(&mut state, inbound_msg("msg-2")));
    let target = prepare_send(&mut state, Some(reply_target())).ok().expect("target");
    settle_send(
        &mut state, &target, &None, &Some("relay:local".to_string()), &"visible reply".to_string(), None,
        &"out-1".to_string(), &"action-1".to_string(), &Ok(()), 1000,
    );
    // After the send, the queued message is not shown to the model again.
    assert!(!shows_pending_messages(expects, &state));
    match build_result(kind, state, None, 1, false, true) {
        SessionResult::Action(o) => {
            assert!(o.responded);
            let ids: Vec<&str> = o.pending_messages.iter().map(|m| m.message_id.as_str()).collect();
            assert_eq!(ids, vec!["msg-2"]);
            assert!(o.review_messages.is_empty());
            assert!(!o.had_injections);
        }
        SessionResult::Mind(_) => panic!("expected an action outcome"),
    }
}
