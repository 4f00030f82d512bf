use actor::intent::{
    create_reply, CreateOutcome,
    approval_intent, chosen_person_approval_target_description, chosen_person, intent_id_arg, plan_intent, plan_intent_update,
    source_memory_arg, update_changes_approved_intent_surface, update_needs_status_check, IntentError, IntentStatus,
};
use actor::json::{Json, JsonNumber};
use actor::model::{Authority, InboundMessage};

fn s(v: &str) -> Json {
    Json::Str(v.to_string())
}

fn obj(entries: Vec<(&str, Json)>) -> Json {
    Json::Object(entries.into_iter().map(|(k, v)| (k.to_string(), v)).collect())
}

fn num(n: i64) -> Json {
    Json::Number(JsonNumber { micros: (n as i128) * 1_000_000, integral: true })
}

fn inbound() -> InboundMessage {
    InboundMessage {
        message_id: "msg-1".to_string(),
        gateway_id: "relay".to_string(),
        sender_external_id: "user-1".to_string(),
        sender_display_name: None,
        reply_external_id: "local".to_string(),
        conversation: "relay:local".to_string(),
        group: None,
        identity: None,
        profile: Some("profile-1".to_string()),
        person: Some("person-1".to_string()),
        content: "hi".to_string(),
        attachments: vec![],
        timestamp: 0,
    }
}

#[test]
fn create_requires_task_kind_and_schedule() {
    let first = inbound();
    let conv = Some("relay:local".to_string());
    let plan = |args: Json| plan_intent(&args, Authority::Default, Some(&first), &conv, &"action-1".to_string());
    assert!(matches!(plan(obj(vec![("task", s("  "))])), Err(IntentError::MissingTask)));
    assert!(matches!(plan(obj(vec![("task", s("t")), ("kind", s("weekly"))])), Err(IntentError::BadKind)));
    assert!(matches!(plan(obj(vec![("task", s("t"))])), Err(IntentError::ScheduledNeedsFireAt)));
    assert!(matches!(
        plan(obj(vec![("task", s("t")), ("kind", s("triggered")), ("condition", s(""))])),
        Err(IntentError::TriggeredNeedsCondition)
    ));
    assert_eq!(IntentError::ScheduledNeedsFireAt.message(), "scheduled intents require fire_at.");
    assert_eq!(IntentError::BadKind.message(), "kind must be scheduled or triggered.");
}

#[test]
fn default_user_creates_active_intent_for_current_target() {
    let first = inbound();
    let conv = Some("relay:local".to_string());
    let args = obj(vec![("task", s("Check in")), ("fire_at", num(2000)), ("priority", num(250)), ("source_memory", s(" mem-1 "))]);
    let d = plan_intent(&args, Authority::Default, Some(&first), &conv, &"action-1".to_string()).ok().expect("draft");
    assert_eq!(d.source_action.as_deref(), Some("action-1"));
    assert_eq!(d.kind, "scheduled");
    assert_eq!(d.status, IntentStatus::Active);
    assert_eq!(d.person.as_deref(), Some("person-1"));
    assert_eq!(d.profile.as_deref(), Some("profile-1"));
    assert_eq!(d.conversation.as_deref(), Some("relay:local"));
    assert_eq!(d.fire_at, Some(2000));
    assert_eq!(d.priority, 100);
    assert_eq!(d.source_memory.as_deref(), Some("mem-1"));
    assert!(!d.chosen_person_approved);
    let d = plan_intent(&obj(vec![("task", s("t")), ("fire_at", num(1))]), Authority::Default, None, &None, &"action-1".to_string()).ok().expect("draft");
    assert_eq!(d.priority, 50);
    assert!(d.person.is_none() && d.conversation.is_none());
}

#[test]
fn sensitive_current_intent_waits_for_chosen_person_approval() {
    let first = inbound();
    let args = obj(vec![("task", s("Follow up")), ("fire_at", num(5)), ("sensitive", Json::Bool(true)), ("dedupe_key", s("k-1"))]);
    let d = plan_intent(&args, Authority::Default, Some(&first), &None, &"action-1".to_string()).ok().expect("draft");
    assert_eq!(d.status, IntentStatus::PendingApproval);
    assert_eq!(d.status.as_str(), "pending_approval");
    let chosen = plan_intent(&args, Authority::ChosenPerson, Some(&first), &None, &"action-1".to_string()).ok().expect("draft");
    assert_eq!(chosen.status, IntentStatus::Active);
    assert!(chosen.chosen_person_approved);

    let approval = approval_intent("intent-p", &d, &args, &"person-chosen".to_string(), &"action-1".to_string(), 77);
    assert_eq!(approval.person.as_deref(), Some("person-chosen"));
    assert_eq!(approval.priority, 100);
    assert_eq!(approval.fire_at, Some(77));
    assert_eq!(approval.status, IntentStatus::Active);
    assert!(approval.chosen_person_approved);
    assert_eq!(approval.dedupe_key.as_deref(), Some("chosen-person-approval:intent-tool:k-1"));
    assert_eq!(
        approval.task,
        "Review proactive outreach before it is sent. Pending intent: intent-p. Proposed task: Follow up. Target person: person-1. Target profile: profile-1. The request was marked sensitive. If the chosen person approves, update intent intent-p with status active. If the chosen person declines, delete intent intent-p."
    );
    let mut bare = d;
    bare.dedupe_key = None;
    bare.person = None;
    bare.profile = None;
    let approval = approval_intent("intent-q", &bare, &obj(vec![]), &"c".to_string(), &"action-1".to_string(), 1);
    assert_eq!(approval.dedupe_key.as_deref(), Some("chosen-person-approval:intent-tool:intent-tool:pending-approval:intent-q"));
    assert_eq!(chosen_person_approval_target_description(&bare, &obj(vec![])), "No explicit target was provided.");
}

#[test]
fn chosen_person_is_the_first_with_that_authority() {
    let bonds = vec![("a".to_string(), Authority::Trusted), ("b".to_string(), Authority::ChosenPerson), ("c".to_string(), Authority::ChosenPerson)];
    assert_eq!(chosen_person(&bonds).as_deref(), Some("b"));
    assert_eq!(chosen_person(&vec![]), None);
}

#[test]
fn non_chosen_person_cannot_activate_pending_approval_intent() {
    let args = obj(vec![("intent_id", s("intent-1")), ("status", s("active"))]);
    assert!(update_needs_status_check(&args, Authority::Default));
    assert!(!update_needs_status_check(&args, Authority::ChosenPerson));
    let r = plan_intent_update(&args, Authority::Default, Some("pending_approval"));
    assert!(matches!(r, Err(IntentError::PendingActivationNeedsChosenPerson)));
    assert_eq!(
        IntentError::PendingActivationNeedsChosenPerson.message(),
        "Activating an chosen-person-approval intent requires chosen-human authority."
    );
    let (id, u) = plan_intent_update(&args, Authority::ChosenPerson, None).ok().expect("update");
    assert_eq!(id, "intent-1");
    assert_eq!(u.status.as_deref(), Some("active"));
    assert_eq!(u.chosen_person_approved, Some(true));
    let (_, u) = plan_intent_update(&args, Authority::Default, Some("active")).ok().expect("update");
    assert_eq!(u.chosen_person_approved, Some(false));
}

#[test]
fn updates_that_only_restate_approval_flags_keep_approval() {
    let flags = obj(vec![("intent_id", s("i")), ("sensitive", Json::Bool(true))]);
    assert!(!update_changes_approved_intent_surface(&flags));
    let (_, u) = plan_intent_update(&flags, Authority::Default, None).ok().expect("update");
    assert_eq!(u.chosen_person_approved, None);
    assert!(update_changes_approved_intent_surface(&obj(vec![("intent_id", s("i")), ("task", s("x"))])));
    assert!(matches!(plan_intent_update(&obj(vec![]), Authority::Default, None), Err(IntentError::MissingIntentId)));
    assert!(matches!(intent_id_arg(&obj(vec![("intent_id", s(""))])), Err(IntentError::MissingIntentId)));
    let (_, u) = plan_intent_update(&obj(vec![("intent_id", s("i")), ("priority", num(300))]), Authority::Default, None).ok().expect("u");
    assert_eq!(u.priority, Some(100));
}

#[test]
fn source_memory_prefers_the_id_field() {
    assert_eq!(source_memory_arg(&obj(vec![("source_memory_id", s(" a ")), ("source_memory", s("b"))])).as_deref(), Some("a"));
    assert_eq!(source_memory_arg(&obj(vec![("source_memory", s("b"))])).as_deref(), Some("b"));
    assert_eq!(source_memory_arg(&obj(vec![("source_memory_id", s("  ")), ("source_memory", s("b"))])), None);
}

fn field<'a>(j: &'a Json, key: &str) -> Option<&'a Json> {
    match j {
        Json::Object(entries) => entries.iter().find(|(k, _)| k == key).map(|(_, v)| v),
        _ => None,
    }
}

fn text(j: &Json, key: &str) -> Option<String> {
    match field(j, key) {
        Some(Json::Str(s)) => Some(s.clone()),
        _ => None,
    }
}

#[test]
fn create_replies_name_the_intent_and_its_approval() {
    let r = create_reply(CreateOutcome::PendingApproval { intent_id: "p".to_string(), approval_id: "a".to_string() });
    assert_eq!(text(&r, "status").as_deref(), Some("pending_approval"));
    assert_eq!(text(&r, "intent_id").as_deref(), Some("p"));
    assert_eq!(text(&r, "chosen_human_intent_id").as_deref(), Some("a"));
    let r = create_reply(CreateOutcome::Created("i".to_string()));
    assert_eq!(text(&r, "status").as_deref(), Some("created"));
    assert!(field(&r, "chosen_human_intent_id").is_none());
    let r = create_reply(CreateOutcome::NoChosenPerson);
    assert_eq!(text(&r, "status").as_deref(), Some("error"));
    assert_eq!(text(&r, "message").as_deref(), Some("Chosen-person approval is required, but no chosen person is configured."));
    let r = create_reply(CreateOutcome::ApprovalFailed { intent_id: "p".to_string(), error: "disk".to_string() });
    assert_eq!(text(&r, "message").as_deref(), Some("Created pending intent p, but failed to create chosen-person approval intent: disk"));
}
