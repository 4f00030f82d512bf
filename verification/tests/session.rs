use actor::model::InboundMessage;
use actor::session::{inbound_message_key, present_pending_messages, remember_injected_message, SessionState};

fn msg(gateway: &str, id: &str, text: &str) -> InboundMessage {
    InboundMessage {
        message_id: id.to_string(),
        gateway_id: gateway.to_string(),
        sender_external_id: "user-1".to_string(),
        sender_display_name: None,
        reply_external_id: "local".to_string(),
        conversation: "relay:local".to_string(),
        group: None,
        identity: None,
        profile: None,
        person: None,
        content: text.to_string(),
        attachments: vec![],
        timestamp: 0,
    }
}

#[test]
fn message_keys_join_gateway_and_id() {
    assert_eq!(inbound_message_key(&msg("relay", "msg-1", "x")).as_deref(), Some("relay:msg-1"));
    assert_eq!(inbound_message_key(&msg("", "msg-1", "x")), None);
    assert_eq!(inbound_message_key(&msg("relay", "", "x")), None);
}

#[test]
fn injected_messages_dedupe_by_source_id_not_text_scenario() {
    let own = vec![msg("relay", "msg-1", "same text")];
    let mut state = SessionState::new(&own);
    assert!(!remember_injected_message(&mut state, msg("relay", "msg-1", "different text")));
    assert!(remember_injected_message(&mut state, msg("relay", "msg-2", "same text")));
    assert!(!remember_injected_message(&mut state, msg("relay", "msg-2", "same text")));
    assert!(remember_injected_message(&mut state, msg("relay", "", "no id")));
    assert!(remember_injected_message(&mut state, msg("relay", "", "no id")));
    assert_eq!(state.pending_injected_messages.len(), 3);
    assert_eq!(state.injected_messages.len(), 3);
}

#[test]
fn pending_messages_are_presented_once() {
    let mut state = SessionState::new(&vec![msg("relay", "msg-1", "hi")]);
    remember_injected_message(&mut state, msg("relay", "msg-2", "a"));
    remember_injected_message(&mut state, msg("relay", "msg-3", "b"));
    assert_eq!(present_pending_messages(&mut state), 2);
    assert!(state.pending_injected_messages.is_empty());
    assert_eq!(state.presented_injected_messages.len(), 2);
    assert_eq!(state.presented_injection_count, 2);
    assert_eq!(present_pending_messages(&mut state), 0);
    assert_eq!(state.presented_injected_messages.len(), 2);
}
