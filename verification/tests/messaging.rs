use actor::json::Json;
use actor::messaging::{
    read_error_reply,
    stored_inbound,
    conversation_read_reply, prepare_send, recent_conversation_entry, recent_conversations_reply, settle_send, DeliveryTarget,
    outbound_message_metadata, outbound_metadata,
    message_json,
    current_composing_target, delivery_lookup, delivery_target_from_channel, ChannelFacts,
    DeliveryLookup,
    begin_delivery, can_read_recent_without_current_conversation, channel_allows_delivery, delivery_failure_review,
    delivery_role, delivery_status, interaction_for, no_delivery_target_reply, outbound_relationship_person,
    parse_attachments, per_conversation_limit, plan_send, plan_summary_update, read_evidence_message, read_scope,
    recent_read_budget, record_read_evidence, send_reply, settle_delivery, should_release_composing, typing_is_active,
    Interaction, ReadScope, StoredMessageFacts, SummaryError,
};
use actor::model::{ActionKind, Authority, ConversationFacts, InboundMessage, MediaKind, SessionKind};
use actor::session::SessionState;

fn s(v: &str) -> Json {
    Json::Str(v.to_string())
}

fn obj(entries: Vec<(&str, Json)>) -> Json {
    Json::Object(entries.into_iter().map(|(k, v)| (k.to_string(), v)).collect())
}

fn inbound(id: &str) -> InboundMessage {
    InboundMessage {
        message_id: id.to_string(),
        gateway_id: "relay".to_string(),
        sender_external_id: "user-1".to_string(),
        sender_display_name: None,
        reply_external_id: "local".to_string(),
        conversation: "relay:local".to_string(),
        group: None,
        identity: None,
        profile: Some("profile-1".to_string()),
        person: None,
        content: "hi".to_string(),
        attachments: vec![],
        timestamp: 0,
    }
}

fn stored(id: &str) -> StoredMessageFacts {
    StoredMessageFacts {
        readable_id: id.to_string(),
        role: "user".to_string(),
        source_message_id: None,
        source_gateway_id: None,
        sender_external_id: Some("user-2".to_string()),
        reply_external_id: None,
        identity: None,
        profile: Some("profile-2".to_string()),
        person: None,
        content: format!("text of {id}"),
        timestamp: 42,
    }
}

#[test]
fn ruminate_reads_recent_messages_without_current_conversation_scenario() {
    let own: Vec<InboundMessage> = vec![];
    let (scope, limit, before) = read_scope(&obj(vec![]), &None, &own, SessionKind::Action(ActionKind::Ruminate), Authority::Default);
    assert!(matches!(scope, ReadScope::Recent));
    assert_eq!(limit, 10);
    assert_eq!(before, None);
    let (scope, _, _) = read_scope(&obj(vec![]), &None, &own, SessionKind::Action(ActionKind::Respond), Authority::Default);
    assert!(matches!(scope, ReadScope::Refused));
    let (scope, _, _) = read_scope(&obj(vec![]), &None, &vec![inbound("m")], SessionKind::Action(ActionKind::Respond), Authority::Default);
    assert!(matches!(scope, ReadScope::Conversation(c) if c == "relay:local"));
    assert!(can_read_recent_without_current_conversation(SessionKind::Mind, Authority::ChosenPerson));
    assert!(!can_read_recent_without_current_conversation(SessionKind::Action(ActionKind::Outreach), Authority::Trusted));
    assert_eq!(recent_read_budget(0), 1);
    assert_eq!(recent_read_budget(50), 20);
    assert_eq!(per_conversation_limit(12), 5);
    assert_eq!(per_conversation_limit(3), 3);
}

#[test]
fn read_messages_record_each_id_once_as_evidence() {
    let own = vec![inbound("msg-own")];
    let mut state = SessionState::new(&own);
    let messages = vec![stored("msg-own"), stored("msg-a"), stored("msg-a"), stored("msg-b")];
    record_read_evidence(&mut state, &own, &"relay:local".to_string(), &Some("relay".to_string()), &None, &messages);
    let ids = state.presented_read_messages.iter().map(|m| m.message_id.as_str()).collect::<Vec<_>>();
    assert_eq!(ids, vec!["msg-a", "msg-b"]);
    assert_eq!(state.presented_read_messages[0].gateway_id, "relay");
    assert_eq!(state.presented_read_messages[0].profile.as_deref(), Some("profile-2"));
    record_read_evidence(&mut state, &own, &"relay:local".to_string(), &None, &None, &messages);
    assert_eq!(state.presented_read_messages.len(), 2);

    let evidence = read_evidence_message(&"c".to_string(), &None, &Some("g-1".to_string()), &stored("x"));
    assert_eq!(evidence.gateway_id, "");
    assert_eq!(evidence.sender_external_id, "user-2");
    assert_eq!(evidence.reply_external_id, "");
    assert_eq!(evidence.group.as_deref(), Some("g-1"));
    assert_eq!(evidence.timestamp, 42);
}

#[test]
fn summaries_cover_listed_or_current_messages() {
    let own = vec![inbound("msg-1"), inbound(""), inbound("msg-2")];
    let (conv, summary, ids) = plan_summary_update(&obj(vec![("summary", s("Talked about tea."))]), &None, &own).ok().expect("plan");
    assert_eq!(conv, "relay:local");
    assert_eq!(summary, "Talked about tea.");
    assert_eq!(ids, vec!["msg-1", "msg-2"]);
    let listed = obj(vec![("summary", s("x")), ("covered_message_ids", Json::Array(vec![s(" a "), Json::Null]))]);
    let (_, _, ids) = plan_summary_update(&listed, &None, &own).ok().expect("plan");
    assert_eq!(ids, vec![" a "]);
    let e = plan_summary_update(&obj(vec![("summary", s("  "))]), &None, &own).err().expect("refused");
    assert_eq!(e, SummaryError::EmptySummary);
    assert_eq!(e.message(), "Provide a non-empty summary.");
    let e = plan_summary_update(&obj(vec![("summary", s("x"))]), &None, &vec![]).err().expect("refused");
    assert_eq!(e.message(), "No conversation specified and no current conversation.");
}

#[test]
fn attachments_are_parsed_or_refused() {
    let one = obj(vec![("media_type", s("image")), ("media_url", s("https://x/y.png")), ("mime_type", s("image/png"))]);
    let parsed = parse_attachments(&one).ok().expect("parsed");
    assert_eq!(parsed.len(), 1);
    assert_eq!(parsed[0].kind, MediaKind::Image);
    assert_eq!(parsed[0].url.as_deref(), Some("https://x/y.png"));

    let asset_wins = obj(vec![("media_type", s("sticker")), ("media_asset_id", s("a-1")), ("media_url", s("u"))]);
    let parsed = parse_attachments(&asset_wins).ok().expect("parsed");
    assert_eq!(parsed[0].asset_id.as_deref(), Some("a-1"));
    assert!(parsed[0].url.is_none());

    let list = obj(vec![("attachments", Json::Array(vec![obj(vec![("media_type", s("file"))]), asset_wins]))]);
    assert_eq!(parse_attachments(&list).ok().expect("parsed").len(), 1);

    let bad = obj(vec![("attachments", Json::Array(vec![obj(vec![("media_type", s("hologram")), ("media_url", s("u"))])]))]);
    assert_eq!(parse_attachments(&bad).err(), Some("Unknown media type: hologram".to_string()));
    assert!(parse_attachments(&obj(vec![("content", s("hi"))])).ok().expect("none").is_empty());
}

#[test]
fn sends_plan_targets_without_waiting_for_typing() {
    let req = plan_send(&obj(vec![("content", s("wait\u{2014}hold on"))])).ok().expect("req");
    assert_eq!(req.content, "wait, hold on");
    assert!(req.explicit_target.is_none());
    let req = plan_send(&obj(vec![("content", s("x")), ("gateway_id", s("g")), ("external_id", s("e"))])).ok().expect("req");
    assert_eq!(req.explicit_target, Some(("g".to_string(), "e".to_string())));
    assert_eq!(no_delivery_target_reply(), "No delivery target \u{2014} message not sent.");
    assert!(typing_is_active(110, 100));
    assert!(!typing_is_active(111, 100));
}

#[test]
fn failed_delivery_does_not_mark_response_delivered_scenario() {
    let mut state = SessionState::new(&vec![]);
    begin_delivery(&mut state);
    assert!(state.attempted_send);
    let composing = Some(("relay".to_string(), "local".to_string()));
    let release = should_release_composing(&state, &composing, &"relay".to_string(), &"local".to_string());
    assert!(release);
    settle_delivery(&mut state, false, release);
    assert!(!state.responded);
    assert!(state.composing_released);
    assert!(!should_release_composing(&state, &composing, &"relay".to_string(), &"local".to_string()));
    assert_eq!(delivery_role(false), "assistant_delivery_failed");
    assert_eq!(delivery_status(false), "failed");
    assert_eq!(
        send_reply(false, false, "relay", "local", "offline", true),
        "Delivery failed; message was not added to visible conversation history and is not marked delivered. Chosen-human review is queued: offline"
    );
    assert_eq!(
        send_reply(false, false, "relay", "local", "offline", false),
        "Delivery failed; message was not added to visible conversation history and is not marked delivered: offline"
    );
    settle_delivery(&mut state, true, false);
    assert!(state.responded);
    assert_eq!(send_reply(true, true, "relay", "local", "", false), "Message sent to relay:local.");
    assert_eq!(send_reply(true, false, "relay", "local", "", false), "Message sent.");
}

#[test]
fn failed_delivery_review_is_deduped_per_action_and_target() {
    let review = delivery_failure_review("action-test", "missing-gateway", "reply-target", &None, "héllo", "boom", &"chosen".to_string(), 9);
    assert_eq!(review.dedupe_key.as_deref(), Some("delivery-failure-review:action-test:missing-gateway:reply-target"));
    assert_eq!(
        review.task,
        "Review failed outbound delivery from action action-test. Target: missing-gateway:reply-target. Conversation: none. Message length: 5 chars. Error: boom. Decide whether to retry manually, update gateway setup, or ignore."
    );
    assert_eq!(review.priority, 100);
    assert_eq!(review.person.as_deref(), Some("chosen"));
}

#[test]
fn outreach_counts_as_proactive() {
    assert_eq!(interaction_for(SessionKind::Action(ActionKind::Outreach)), Interaction::ProactiveOutbound);
    assert_eq!(interaction_for(SessionKind::Action(ActionKind::Respond)), Interaction::Outbound);
    let convs = vec![ConversationFacts { id: "c-1".to_string(), person: Some("p-9".to_string()), profile: None, gateway_id: None }];
    assert_eq!(outbound_relationship_person(&vec![], &Some("c-1".to_string()), &convs).as_deref(), Some("p-9"));
    assert_eq!(outbound_relationship_person(&vec![], &Some("c-2".to_string()), &convs), None);
    let mut m = inbound("m");
    m.person = Some("p-1".to_string());
    assert_eq!(outbound_relationship_person(&vec![m], &Some("c-1".to_string()), &convs).as_deref(), Some("p-1"));
}

#[test]
fn channels_refuse_delivery_only_when_marked() {
    assert!(channel_allows_delivery(&Json::Null));
    assert!(channel_allows_delivery(&obj(vec![("delivery_supported", Json::Bool(true))])));
    assert!(!channel_allows_delivery(&obj(vec![("delivery_supported", Json::Bool(false))])));
}

#[test]
fn recent_messages_skip_the_sessions_own() {
    let own = vec![inbound("msg-own")];
    let mut sourced = stored("stored-1");
    sourced.source_message_id = Some("msg-own".to_string());
    let mut other = stored("stored-2");
    other.source_message_id = Some("msg-other".to_string());
    other.sender_external_id = None;
    other.reply_external_id = Some("local".to_string());
    let plain = stored("stored-3");
    let recent = actor::messaging::recent_messages(&vec![sourced, other, plain], &own);
    let ids = recent.iter().map(|m| m.message_id.as_str()).collect::<Vec<_>>();
    assert_eq!(ids, vec!["stored-2", "stored-3"]);
    assert_eq!(recent[0].speaker.as_deref(), Some("local"));
    assert_eq!(recent[1].speaker.as_deref(), Some("user-2"));
    assert_eq!(recent[1].role, "user");
}

fn channel(metadata: Json) -> ChannelFacts {
    ChannelFacts {
        id: "chan-1".to_string(),
        gateway_id: "relay".to_string(),
        external_id: "local".to_string(),
        metadata,
    }
}

#[test]
fn channel_becomes_target_unless_it_refuses_delivery() {
    let t = delivery_target_from_channel(Some(channel(obj(vec![])))).expect("target");
    assert_eq!(t.gateway_id, "relay");
    assert_eq!(t.external_id, "local");
    assert_eq!(t.channel, "chan-1");
    let refused = channel(obj(vec![("delivery_supported", Json::Bool(false))]));
    assert!(delivery_target_from_channel(Some(refused)).is_none());
    let supported = channel(obj(vec![("delivery_supported", Json::Bool(true))]));
    assert!(delivery_target_from_channel(Some(supported)).is_some());
    assert!(delivery_target_from_channel(None).is_none());
}

#[test]
fn explicit_target_comes_before_the_reply_target() {
    let own = vec![inbound("m1")];
    let explicit = Some(("gw".to_string(), "ext".to_string()));
    match delivery_lookup(&explicit, &own, &None) {
        DeliveryLookup::Channel { gateway_id, external_id } => {
            assert_eq!(gateway_id, "gw");
            assert_eq!(external_id, "ext");
        }
        _ => panic!("expected a channel lookup"),
    }
    match delivery_lookup(&None, &own, &Some("other".to_string())) {
        DeliveryLookup::Channel { gateway_id, external_id } => {
            assert_eq!(gateway_id, "relay");
            assert_eq!(external_id, "local");
        }
        _ => panic!("expected the reply target"),
    }
}

#[test]
fn without_messages_the_conversation_channel_is_looked_up() {
    match delivery_lookup(&None, &vec![], &Some("relay:local".to_string())) {
        DeliveryLookup::ConversationChannel(c) => assert_eq!(c, "relay:local"),
        _ => panic!("expected the conversation's channel"),
    }
    assert!(matches!(delivery_lookup(&None, &vec![], &None), DeliveryLookup::Nowhere));
}

#[test]
fn composing_target_follows_the_first_message() {
    let own = vec![inbound("m1"), inbound("m2")];
    assert_eq!(current_composing_target(&own), Some(("relay".to_string(), "local".to_string())));
    assert_eq!(current_composing_target(&vec![]), None);
}

fn field<'a>(j: &'a Json, key: &str) -> Option<&'a Json> {
    match j {
        Json::Object(entries) => entries.iter().find(|(k, _)| k == key).map(|(_, v)| v),
        _ => None,
    }
}

fn text_of(j: Option<&Json>) -> Option<String> {
    match j {
        Some(Json::Str(s)) => Some(s.clone()),
        _ => None,
    }
}

#[test]
fn message_json_shows_a_user_message_with_person_and_source() {
    let mut m = stored("m-7");
    m.person = Some("person-1".to_string());
    m.source_gateway_id = Some("relay".to_string());
    let j = message_json(&m, &Some("Ana".to_string()), Some(Json::Array(vec![])));
    assert_eq!(text_of(field(&j, "message_id")), Some("m-7".to_string()));
    assert_eq!(text_of(field(&j, "time")), Some("1970-01-01T00:00:42+00:00".to_string()));
    assert_eq!(text_of(field(&j, "content")), Some("text of m-7".to_string()));
    let from = field(&j, "from").expect("from");
    assert_eq!(text_of(field(from, "role")), Some("user".to_string()));
    assert_eq!(text_of(field(from, "ref")), Some("person-1".to_string()));
    assert_eq!(text_of(field(from, "name")), Some("Ana".to_string()));
    let source = field(&j, "source").expect("source");
    assert_eq!(text_of(field(source, "gateway_id")), Some("relay".to_string()));
    assert!(matches!(field(source, "message_id"), Some(Json::Null)));
    assert!(matches!(field(&j, "attachments"), Some(Json::Array(_))));
}

#[test]
fn message_json_shows_its_own_messages_as_self() {
    let mut m = stored("m-8");
    m.role = "assistant".to_string();
    m.person = Some("person-1".to_string());
    let j = message_json(&m, &Some("Ana".to_string()), None);
    let from = field(&j, "from").expect("from");
    assert_eq!(text_of(field(from, "role")), Some("self".to_string()));
    assert!(field(from, "ref").is_none());
    assert!(field(from, "name").is_none());
    assert!(field(&j, "source").is_none());
    assert!(field(&j, "attachments").is_none());
}

#[test]
fn outbound_metadata_holds_attachments_only_when_there_are_some() {
    assert!(matches!(outbound_metadata(None), Json::Null));
    let m = outbound_metadata(Some(Json::Array(vec![])));
    assert!(matches!(field(&m, "attachments"), Some(Json::Array(_))));
}

#[test]
fn delivered_messages_store_their_id_and_channel() {
    let m = outbound_message_metadata(None, &"out-1".to_string(), &"chan-1".to_string());
    assert_eq!(text_of(field(&m, "message_id")), Some("out-1".to_string()));
    assert_eq!(text_of(field(&m, "channel_id")), Some("chan-1".to_string()));
    assert!(field(&m, "attachments").is_none());
    let m = outbound_message_metadata(Some(Json::Array(vec![])), &"out-2".to_string(), &"chan-1".to_string());
    assert!(matches!(field(&m, "attachments"), Some(Json::Array(_))));
    assert_eq!(text_of(field(&m, "message_id")), Some("out-2".to_string()));
}

#[test]
fn default_delivery_uses_channel_record_for_stored_conversation_scenario() {
    // No current message: the stored conversation's channel is looked up and
    // becomes the target.
    let lookup = delivery_lookup(&None, &vec![], &Some("conv-1".to_string()));
    match lookup {
        DeliveryLookup::ConversationChannel(c) => assert_eq!(c, "conv-1"),
        _ => panic!("expected the conversation's channel"),
    }
    let found = Some(ChannelFacts {
        id: "relay:local".to_string(),
        gateway_id: "relay".to_string(),
        external_id: "local".to_string(),
        metadata: obj(vec![]),
    });
    let t = delivery_target_from_channel(found).expect("target");
    assert_eq!((t.gateway_id.as_str(), t.external_id.as_str()), ("relay", "local"));
}

#[test]
fn default_delivery_does_not_fallback_to_conversation_person_scenario() {
    // A conversation with no channel record has no target, whoever it is
    // about.
    let lookup = delivery_lookup(&None, &vec![], &Some("legacy-person-only".to_string()));
    assert!(matches!(lookup, DeliveryLookup::ConversationChannel(_)));
    assert!(delivery_target_from_channel(None).is_none());
    assert_eq!(no_delivery_target_reply(), "No delivery target \u{2014} message not sent.");
}

fn target() -> DeliveryTarget {
    DeliveryTarget { gateway_id: "relay".to_string(), external_id: "local".to_string(), channel: "chan-1".to_string() }
}

#[test]
fn no_target_leaves_the_session_untried() {
    let mut state = SessionState::new(&vec![]);
    assert_eq!(prepare_send(&mut state, None).err(), Some("No delivery target \u{2014} message not sent.".to_string()));
    assert!(!state.attempted_send);
    assert!(prepare_send(&mut state, Some(target())).is_ok());
    assert!(state.attempted_send);
}

#[test]
fn a_delivered_send_is_stored_with_its_channel() {
    let mut state = SessionState::new(&vec![]);
    let composing = Some(("relay".to_string(), "local".to_string()));
    let r = settle_send(
        &mut state, &target(), &composing, &Some("relay:local".to_string()), &"hi".to_string(), None,
        &"out-1".to_string(), &"action-1".to_string(), &Ok(()), 1000,
    );
    assert!(state.responded && state.composing_released && r.release_composing);
    let stored = r.stored.expect("stored");
    assert_eq!((stored.conversation.as_str(), stored.content.as_str(), stored.reply_external_id.as_str()), ("relay:local", "hi", "local"));
    assert_eq!(text_of(field(&stored.metadata, "channel_id")), Some("chan-1".to_string()));
    assert_eq!(r.delivery.status, "delivered");
    assert_eq!(r.action_message.role, "assistant");
}

#[test]
fn a_failed_send_is_recorded_once_and_not_stored() {
    let mut state = SessionState::new(&vec![]);
    let r = settle_send(
        &mut state, &target(), &None, &Some("relay:local".to_string()), &"hi".to_string(), None,
        &"out-1".to_string(), &"action-1".to_string(), &Err("offline".to_string()), 1000,
    );
    assert!(!state.responded);
    assert!(r.stored.is_none());
    assert_eq!(r.delivery.status, "failed");
    assert_eq!(r.delivery.error.as_deref(), Some("offline"));
    assert_eq!(r.action_message.role, "assistant_delivery_failed");
}

#[test]
fn a_conversation_read_records_and_shows_its_messages() {
    let mut state = SessionState::new(&vec![]);
    let empty = conversation_read_reply(&mut state, &vec![], &"c".to_string(), &None, &None, &vec![], vec![]);
    assert!(matches!(field(&empty, "messages"), Some(Json::Array(v)) if v.is_empty()));
    assert!(state.presented_read_messages.is_empty());
    let msgs = vec![stored("m1"), stored("m2")];
    let r = conversation_read_reply(&mut state, &vec![], &"c".to_string(), &None, &None, &msgs, vec![(None, None), (None, None)]);
    assert!(matches!(field(&r, "messages"), Some(Json::Array(v)) if v.len() == 2));
    assert_eq!(state.presented_read_messages.len(), 2);
    let again = conversation_read_reply(&mut state, &vec![], &"c".to_string(), &None, &None, &msgs, vec![(None, None), (None, None)]);
    assert!(matches!(field(&again, "messages"), Some(Json::Array(v)) if v.len() == 2));
    assert_eq!(state.presented_read_messages.len(), 2);
    let entry = recent_conversation_entry("c".to_string(), Some("relay".to_string()), None, None, vec![]);
    assert!(matches!(field(&entry, "group"), Some(Json::Null)));
    let all = recent_conversations_reply(vec![entry]);
    assert!(matches!(field(&all, "conversations"), Some(Json::Array(v)) if v.len() == 1));
}

#[test]
fn ingested_messages_keep_their_source_and_reply_target() {
    let m = inbound("msg-9");
    let r = stored_inbound(&m, obj(vec![]));
    assert_eq!(r.source_message_id, "msg-9");
    assert_eq!(r.source_gateway_id, "relay");
    assert_eq!(r.reply_external_id, "local");
    assert_eq!(r.sender_external_id, "user-1");
    assert_eq!(r.content, "hi");
    assert_eq!(r.profile.as_deref(), Some("profile-1"));
}

#[test]
fn a_failed_read_answers_the_store_error() {
    let r = read_error_reply("db locked".to_string());
    assert_eq!(text_of(field(&r, "error")), Some("db locked".to_string()));
    assert!(field(&r, "messages").is_none());
}

#[test]
fn failed_delivery_schedules_deduped_chosen_human_review_intent_scenario() {
    let mut state = SessionState::new(&vec![]);
    let t = DeliveryTarget {
        gateway_id: "missing-gateway".to_string(),
        external_id: "reply-target".to_string(),
        channel: "missing-gateway:reply-target".to_string(),
    };
    let mut keys = Vec::new();
    for content in ["hi", "hi again"] {
        let t = prepare_send(&mut state, Some(DeliveryTarget { ..t.clone() })).ok().expect("target");
        let r = settle_send(
            &mut state, &t, &None, &None, &content.to_string(), None, &"out".to_string(), &"action-1".to_string(),
            &Err("gateway missing".to_string()), 1000,
        );
        assert_eq!(r.delivery.status, "failed");
        let review = delivery_failure_review(
            "action-1", &t.gateway_id, &t.external_id, &None, content, "gateway missing", &"person-h".to_string(), 1000,
        );
        assert_eq!(review.priority, 100);
        assert!(review.chosen_person_approved);
        assert_eq!(review.person.as_deref(), Some("person-h"));
        assert_eq!(review.source_action.as_deref(), Some("action-1"));
        assert!(review.task.contains("failed outbound delivery"));
        keys.push(review.dedupe_key.clone().expect("key"));
        let reply = send_reply(false, false, &t.gateway_id, &t.external_id, "gateway missing", true);
        assert!(reply.contains("Chosen-human review is queued"));
    }
    assert_eq!(keys[0], "delivery-failure-review:action-1:missing-gateway:reply-target");
    assert_eq!(keys[0], keys[1]);
    assert!(!state.responded);
}
