use actor::formats::{format_timestamp, inline_image_url};
use actor::json::Json;
use actor::social_path::RelationStatus;
use actor::model::MemorySubjectType;
use actor::model::{ActionKind, Authority, InboundMessage, SessionKind};
use actor::social_read::{
    thought_key,
    unseen_thought_positions,
    quiet_hours_text,
    thought_order, thought_subjects, ThoughtRank,
    append_relationship_memories, open_loop_due, relationship_pack_memory_type, relationship_pack_memory_types,
    social_relation_order, social_relation_rank, RelationRank,
    append_unseen_memories, order_relationship_memories, RelevantMemoryCtx,
    active_typing_ctx, TypingEntry,
    build_safety_ctx, describe_due_time, duration_words, memory_pack_query, relation_evidence_summary,
    relative_duration, truncate_prompt_value,
};

fn s(v: &str) -> Json {
    Json::Str(v.to_string())
}

fn obj(entries: Vec<(&str, Json)>) -> Json {
    Json::Object(entries.into_iter().map(|(k, v)| (k.to_string(), v)).collect())
}

fn text_msg(content: &str) -> InboundMessage {
    InboundMessage {
        message_id: "m".to_string(),
        gateway_id: "relay".to_string(),
        sender_external_id: "u".to_string(),
        sender_display_name: None,
        reply_external_id: "local".to_string(),
        conversation: "relay:local".to_string(),
        group: None,
        identity: None,
        profile: None,
        person: None,
        content: content.to_string(),
        attachments: vec![],
        timestamp: 0,
    }
}

#[test]
fn timestamps_render_as_rfc3339() {
    assert_eq!(format_timestamp(0), "1970-01-01T00:00:00+00:00");
    assert_eq!(format_timestamp(1431648000), "2015-05-15T00:00:00+00:00");
    assert_eq!(format_timestamp(i64::MAX), i64::MAX.to_string());
    assert_eq!(format_timestamp(i64::MIN), i64::MIN.to_string());
}

#[test]
fn stored_pictures_are_inlined_as_base64() {
    assert_eq!(inline_image_url("image/png", b"abc"), "data:image/png;base64,YWJj");
    assert_eq!(inline_image_url("image/webp", b""), "data:image/webp;base64,");
    assert_eq!(inline_image_url("image/png", b"ab"), "data:image/png;base64,YWI=");
}

#[test]
fn durations_and_due_times_read_naturally() {
    assert_eq!(describe_due_time(100, 130), "due now");
    assert_eq!(describe_due_time(1000, 100), format!("in {}", duration_words(900)));
    assert!(describe_due_time(100, 100_000).starts_with("overdue by "));
    assert!(relative_duration(0, 3600).ends_with("ago"));
}

#[test]
fn safety_context_follows_authority_and_kind() {
    let owner = build_safety_ctx(Authority::ChosenPerson, SessionKind::Action(ActionKind::Respond));
    assert!(owner.sensitive_memory_access.starts_with("sensitive recall allowed"));
    assert!(owner.third_party_outreach.starts_with("owner can approve"));
    let outreach = build_safety_ctx(Authority::Default, SessionKind::Action(ActionKind::Outreach));
    assert!(outreach.sensitive_memory_access.starts_with("conservative recall only"));
    assert!(outreach.proactive_outreach.starts_with("active outreach"));
    let review = build_safety_ctx(Authority::Default, SessionKind::Action(ActionKind::Review));
    assert!(review.sensitive_memory_access.starts_with("sensitive recall allowed"));
}

#[test]
fn memory_pack_query_joins_trimmed_texts() {
    let ms = vec![text_msg("  hello "), text_msg("   "), text_msg("world")];
    let extra = vec![" tea ".to_string(), String::new()];
    assert_eq!(memory_pack_query(&ms, &extra).as_deref(), Some("hello\nworld\ntea"));
    assert_eq!(memory_pack_query(&vec![], &vec![]), None);
    let long = "x".repeat(600);
    assert_eq!(memory_pack_query(&vec![text_msg(&long)], &vec![]).map(|q| q.chars().count()), Some(512));
}

#[test]
fn relation_evidence_is_summarized_by_priority() {
    assert_eq!(relation_evidence_summary(None), None);
    let quote = obj(vec![("quote", s("  they are siblings ")), ("message_id", s("m"))]);
    assert_eq!(relation_evidence_summary(Some(&quote)).as_deref(), Some("quote: they are siblings"));
    let ids = obj(vec![("message_ids", Json::Array(vec![s("a"), s(" "), s("b"), s("c"), s("d")]))]);
    assert_eq!(relation_evidence_summary(Some(&ids)).as_deref(), Some("messages a, b, c"));
    let one = obj(vec![("message_id", s(" m-1 "))]);
    assert_eq!(relation_evidence_summary(Some(&one)).as_deref(), Some("message m-1"));
    let nested = obj(vec![("evidence", obj(vec![("reason", s("said so"))]))]);
    assert_eq!(relation_evidence_summary(Some(&nested)).as_deref(), Some("reason: said so"));
    assert_eq!(relation_evidence_summary(Some(&obj(vec![]))), None);
    assert_eq!(truncate_prompt_value("abcdef", 3), "abc...");
}

#[test]
fn typing_lines_show_the_current_sender_first() {
    let entry = |conv: &str, gw: &str, sender: &str, at: i64| TypingEntry {
        conversation: conv.to_string(),
        gateway_id: gw.to_string(),
        sender_external_id: sender.to_string(),
        started_at: at,
    };
    let entries = vec![
        entry("c-1", "zulip", "bob", 95),
        entry("c-1", "relay", "carol", 99),
        entry("c-1", "relay", "alice", 100),
        entry("c-1", "relay", "stale", 80),
        entry("c-2", "relay", "other", 100),
    ];
    let current = Some(("c-1".to_string(), "zulip".to_string(), "bob".to_string()));
    let lines = active_typing_ctx(&entries, &current, &Some("c-1".to_string()), 100);
    let who = lines.iter().map(|l| (l.gateway_id.as_str(), l.sender_external_id.as_str())).collect::<Vec<_>>();
    assert_eq!(who, vec![("zulip", "bob"), ("relay", "alice"), ("relay", "carol")]);
    assert!(lines[0].is_current_sender);
    assert!(!lines[1].is_current_sender);
    assert_eq!(lines[0].active_for, "less than 1 minute");
    let all = active_typing_ctx(&entries, &None, &None, 100);
    assert_eq!(all.len(), 4);
}

fn pack_memory(id: &str, scope: &str, importance: i32, confidence: i32) -> RelevantMemoryCtx {
    RelevantMemoryCtx {
        id: id.to_string(),
        scope: scope.to_string(),
        memory_type: "preference".to_string(),
        truth_status: "current".to_string(),
        importance,
        confidence,
        content: format!("content of {id}"),
    }
}

#[test]
fn memory_packs_hold_each_memory_once() {
    let mut pack = vec![];
    append_unseen_memories(&mut pack, vec![pack_memory("a", "current_profile", 50, 50), pack_memory("b", "current_profile", 50, 50)]);
    append_unseen_memories(&mut pack, vec![pack_memory("b", "current_person", 90, 90), pack_memory("c", "current_person", 10, 10), pack_memory("c", "current_person", 10, 10)]);
    let ids = pack.iter().map(|m| (m.id.as_str(), m.scope.as_str())).collect::<Vec<_>>();
    assert_eq!(ids, vec![("a", "current_profile"), ("b", "current_profile"), ("c", "current_person")]);
}

#[test]
fn relationship_memories_come_most_important_first() {
    let mut pack = vec![
        pack_memory("low", "p", 10, 90),
        pack_memory("high-a", "p", 80, 50),
        pack_memory("high-b", "p", 80, 70),
        pack_memory("mid", "p", 40, 40),
        pack_memory("high-c", "p", 80, 50),
        pack_memory("m2", "p", 40, 40),
        pack_memory("m3", "p", 30, 40),
    ];
    order_relationship_memories(&mut pack);
    let ids = pack.iter().map(|m| m.id.as_str()).collect::<Vec<_>>();
    assert_eq!(ids, vec!["high-b", "high-a", "high-c", "mid", "m2", "m3"]);
}

#[test]
fn timing_context_reports_the_conversations_gateway() {
    use_gateway_cases();
    assert_eq!(actor::social_read::last_contact_text(0, 100), None);
    assert_eq!(actor::social_read::last_contact_text(40, 100).as_deref(), Some(relative_duration(40, 100).as_str()));
}

fn use_gateway_cases() {
    let summaries = vec![
        actor::model::ConversationFacts { id: "c-1".to_string(), person: None, profile: None, gateway_id: Some("discord".to_string()) },
        actor::model::ConversationFacts { id: "c-2".to_string(), person: None, profile: None, gateway_id: None },
    ];
    let mut m = text_msg("x");
    m.conversation = "c-2".to_string();
    m.gateway_id = "relay".to_string();
    let messages = vec![m];
    let g = |c: Option<&str>, ms: &Vec<InboundMessage>| {
        actor::social_read::gateway_for_context(&c.map(str::to_string), &summaries, ms)
    };
    assert_eq!(g(Some("c-1"), &messages).as_deref(), Some("discord"));
    assert_eq!(g(Some("c-2"), &messages).as_deref(), Some("relay"));
    assert_eq!(g(Some("c-3"), &messages), None);
    assert_eq!(g(None, &messages).as_deref(), Some("relay"));
    assert_eq!(g(None, &vec![]), None);
}

fn rank(status: RelationStatus, micros: i64, pct: i32, updated_at: i64) -> RelationRank {
    RelationRank { status, confidence_micros: micros, confidence_pct: pct, updated_at }
}

#[test]
fn social_relation_rank_orders_status_confidence_then_recency() {
    assert_eq!(social_relation_rank(&rank(RelationStatus::Confirmed, 900_000, 90, 7)), (3, 90, 7));
    assert_eq!(social_relation_rank(&rank(RelationStatus::Stated, 500_000, 50, 1)), (2, 50, 1));
    assert_eq!(social_relation_rank(&rank(RelationStatus::Hypothesis, 500_000, 50, 1)), (1, 50, 1));
    assert_eq!(social_relation_rank(&rank(RelationStatus::Denied, 500_000, 50, 1)), (0, 50, 1));
}

#[test]
fn social_relations_drop_weak_and_refuted_and_keep_the_best_five() {
    let ranks = vec![
        rank(RelationStatus::Hypothesis, 400_000, 40, 10), // 0: shown, lowest
        rank(RelationStatus::Denied, 990_000, 99, 10),     // 1: denied
        rank(RelationStatus::Confirmed, 800_000, 80, 5),   // 2
        rank(RelationStatus::Stated, 399_999, 40, 10),     // 3: below the floor
        rank(RelationStatus::Confirmed, 800_000, 80, 9),   // 4: newer than 2
        rank(RelationStatus::Stated, 700_000, 70, 1),      // 5
        rank(RelationStatus::Outdated, 900_000, 90, 1),    // 6: outdated
        rank(RelationStatus::Stated, 700_000, 70, 1),      // 7: ties with 5
        rank(RelationStatus::Confirmed, 600_000, 60, 1),   // 8
    ];
    assert_eq!(social_relation_order(&ranks), vec![4, 2, 8, 5, 7]);
    assert_eq!(social_relation_order(&vec![]), Vec::<usize>::new());
}

#[test]
fn relationship_packs_hold_relationship_kinds_only() {
    for t in relationship_pack_memory_types() {
        assert!(relationship_pack_memory_type(t));
    }
    assert_eq!(relationship_pack_memory_types().len(), 6);
    assert!(!relationship_pack_memory_type("fact"));
    assert!(!relationship_pack_memory_type("identity_claim"));
}

fn ctx(id: &str, memory_type: &str) -> RelevantMemoryCtx {
    RelevantMemoryCtx {
        id: id.to_string(),
        scope: "relationship".to_string(),
        memory_type: memory_type.to_string(),
        truth_status: "confirmed".to_string(),
        importance: 50,
        confidence: 50,
        content: "c".to_string(),
    }
}

#[test]
fn relationship_memories_skip_other_kinds_and_held_ids() {
    let mut pack = vec![ctx("a", "preference")];
    append_relationship_memories(
        &mut pack,
        vec![ctx("a", "boundary"), ctx("b", "fact"), ctx("c", "commitment"), ctx("c", "open_loop")],
    );
    let ids: Vec<&str> = pack.iter().map(|m| m.id.as_str()).collect();
    assert_eq!(ids, vec!["a", "c"]);
}

#[test]
fn open_loop_due_describes_the_time_or_nothing() {
    assert_eq!(open_loop_due(None, 100), None);
    assert_eq!(open_loop_due(Some(100), 130), Some("due now".to_string()));
    assert_eq!(open_loop_due(Some(3700), 100), Some("in 1 hour".to_string()));
}

fn thought(importance: i64, confidence: i64, timestamp: i64) -> ThoughtRank {
    ThoughtRank { importance_micros: importance, confidence_micros: confidence, timestamp }
}

#[test]
fn thoughts_keep_the_five_most_important_oldest_first() {
    let t = vec![
        thought(100_000, 500_000, 10), // 0: least important
        thought(900_000, 500_000, 50), // 1
        thought(900_000, 800_000, 20), // 2: most confident of the top
        thought(500_000, 500_000, 40), // 3
        thought(900_000, 500_000, 60), // 4: newer than 1
        thought(700_000, 500_000, 30), // 5
        thought(200_000, 500_000, 5),  // 6
    ];
    // Best first: 2, 4, 1, 5, 3, 6, 0; the first five shown oldest first.
    assert_eq!(thought_order(&t), vec![2, 5, 3, 1, 4]);
    assert_eq!(thought_order(&vec![]), Vec::<usize>::new());
    assert_eq!(thought_order(&vec![thought(1, 1, 3), thought(1, 1, 3)]), vec![0, 1]);
}

#[test]
fn thoughts_are_gathered_for_profile_person_then_identity() {
    let r = thought_subjects(&Some("i".to_string()), &Some("pr".to_string()), &Some("pe".to_string()));
    assert_eq!(
        r,
        vec![
            (MemorySubjectType::Profile, "pr".to_string()),
            (MemorySubjectType::Person, "pe".to_string()),
            (MemorySubjectType::Identity, "i".to_string()),
        ]
    );
    assert!(thought_subjects(&None, &None, &None).is_empty());
    assert_eq!(thought_subjects(&Some("i".to_string()), &None, &None), vec![(MemorySubjectType::Identity, "i".to_string())]);
}

#[test]
fn quiet_hours_say_when_they_end_or_their_window() {
    assert_eq!(quiet_hours_text(Some(5400), 22, 7), "quiet hours active; ends in 1 hour");
    assert_eq!(quiet_hours_text(None, 22, 7), "quiet hours configured 22:00-07:00 UTC; currently open");
    assert_eq!(quiet_hours_text(None, 0, 9), "quiet hours configured 00:00-09:00 UTC; currently open");
    assert_eq!(quiet_hours_text(Some(30), 22, 7), "quiet hours active; ends in less than 1 minute");
}

#[test]
fn thoughts_gathered_for_several_subjects_are_kept_once() {
    let mut seen = vec!["t1".to_string()];
    let ids = vec!["t1".to_string(), "t2".to_string(), "t3".to_string(), "t2".to_string()];
    assert_eq!(unseen_thought_positions(&mut seen, &ids), vec![1, 2]);
    assert_eq!(seen, vec!["t1".to_string(), "t2".to_string(), "t3".to_string()]);
    assert_eq!(unseen_thought_positions(&mut seen, &vec!["t3".to_string()]), Vec::<usize>::new());
}

#[test]
fn thought_keys_join_time_action_and_content() {
    assert_eq!(thought_key(1700, &Some("act-1".to_string()), "hello"), "1700:act-1:hello");
    assert_eq!(thought_key(-5, &None, "x:y"), "-5::x:y");
}
