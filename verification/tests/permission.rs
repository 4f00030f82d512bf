use actor::json::{Json, JsonNumber};
use actor::model::{
    ActionKind, Authority, InboundFacts, PermissionContext, SessionKind, StoreSnapshot,
};
use actor::tools::permission::{check, intent_requires_chosen_person_approval, sensitive_outreach_text};

fn s(v: &str) -> Json {
    Json::Str(v.to_string())
}

fn obj(entries: Vec<(&str, Json)>) -> Json {
    Json::Object(entries.into_iter().map(|(k, v)| (k.to_string(), v)).collect())
}

fn ctx(kind: SessionKind, authority: Authority) -> PermissionContext {
    PermissionContext {
        kind,
        authority,
        conversation: Some("relay:local".to_string()),
        current: Some(InboundFacts {
            identity: Some("identity-1".to_string()),
            profile: Some("profile-1".to_string()),
            person: Some("person-1".to_string()),
            conversation: "relay:local".to_string(),
            reply_target: Some(("relay".to_string(), "local".to_string())),
        }),
        chosen_people: vec![],
    }
}

fn empty_store() -> StoreSnapshot {
    StoreSnapshot {
        memories: vec![],
        intents: vec![],
        profile_links: vec![],
        conversations: vec![],
        conversation_messages: vec![],
    }
}

#[test]
fn background_actions_cannot_send_visible_messages_scenario() {
    let c = ctx(SessionKind::Action(ActionKind::Review), Authority::Default);
    let r = check("send_message", &obj(vec![("content", s("hi"))]), &c, &empty_store());
    assert_eq!(r, Err("This action is internal/background only; do not send a visible message.".to_string()));
}

#[test]
fn current_reply_is_allowed() {
    let c = ctx(SessionKind::Action(ActionKind::Respond), Authority::Default);
    assert_eq!(check("send_message", &obj(vec![("content", s("hi"))]), &c, &empty_store()), Ok(()));
}

#[test]
fn default_user_cannot_opt_into_sensitive_recall_scenario() {
    let c = ctx(SessionKind::Action(ActionKind::Respond), Authority::Default);
    let r = check("recall_memories", &obj(vec![("query", s("x")), ("include_sensitive", Json::Bool(true))]), &c, &empty_store());
    assert_eq!(r, Err("Sensitive memory recall requires chosen-person authority or internal review context.".to_string()));
    let chosen = ctx(SessionKind::Action(ActionKind::Respond), Authority::ChosenPerson);
    let r = check("recall_memories", &obj(vec![("query", s("x")), ("include_sensitive", Json::Bool(true))]), &chosen, &empty_store());
    assert_eq!(r, Ok(()));
    let high = obj(vec![("max_sensitivity", Json::Number(JsonNumber { micros: 900_000, integral: false }))]);
    assert!(check("recall_memories", &high, &c, &empty_store()).is_err());
}

#[test]
fn apply_review_is_review_only_scenario() {
    let c = ctx(SessionKind::Action(ActionKind::Respond), Authority::ChosenPerson);
    let r = check("apply_review", &obj(vec![]), &c, &empty_store());
    assert_eq!(r, Err("Structured review application is allowed only in review actions.".to_string()));
    let review = ctx(SessionKind::Action(ActionKind::Review), Authority::Default);
    assert_eq!(check("apply_review", &obj(vec![]), &review, &empty_store()), Ok(()));
}

#[test]
fn memory_inspection_by_id_is_chosen_person_only_scenario() {
    let c = ctx(SessionKind::Action(ActionKind::Review), Authority::Trusted);
    let r = check("inspect_memory", &obj(vec![("memory_id", s("m"))]), &c, &empty_store());
    assert_eq!(r, Err("Chosen-person authority is required to inspect or delete memories by id.".to_string()));
    let chosen = ctx(SessionKind::Action(ActionKind::Respond), Authority::ChosenPerson);
    assert_eq!(check("delete_memory", &obj(vec![("memory_id", s("m"))]), &chosen, &empty_store()), Ok(()));
}

#[test]
fn sensitive_outreach_needs_approval() {
    assert!(intent_requires_chosen_person_approval(&obj(vec![("sensitive", Json::Bool(true))])));
    assert!(intent_requires_chosen_person_approval(&obj(vec![("requires_chosen_person_approval", Json::Bool(true))])));
    assert!(!intent_requires_chosen_person_approval(&obj(vec![("task", s("Say hello"))])));
    assert!(!sensitive_outreach_text(None));
    assert!(sensitive_outreach_text(Some("Remind them about the BANK payment")));
    assert!(intent_requires_chosen_person_approval(&obj(vec![("task", s("Ask about their medical results"))])));
}

#[test]
fn unknown_tools_pass_the_permission_check() {
    let c = ctx(SessionKind::Mind, Authority::Default);
    assert_eq!(check("get_current_time", &obj(vec![]), &c, &empty_store()), Ok(()));
}
