use actor::json::{Json, JsonNumber};
use actor::memory::{
    demoted_reply, finish_form, moved_content, promoted_reply, recall_reply, remember_recalled_memories, supersede_update,
    by_id_request, canonicalize_content_for_subjects, clamp_unit, clamp_valence, current_subject_relation,
    demoted_subjects, demotion_args, evidence_source_messages, current_conversation, memory_body, plan_memory,
    plan_recall, promoted_subjects, promotion_args, recall_order, remember_recalled_memory, string_array,
    ByIdError, ByIdTool, FormError, PlannedSubject, SubjectRelation,
};
use actor::model::{Authority, InboundMessage, LinkStatus, MemorySubject, MemorySubjectType, ProfileLink};
use actor::session::SessionState;

fn s(v: &str) -> Json {
    Json::Str(v.to_string())
}

fn obj(entries: Vec<(&str, Json)>) -> Json {
    Json::Object(entries.into_iter().map(|(k, v)| (k.to_string(), v)).collect())
}

fn arr(items: Vec<Json>) -> Json {
    Json::Array(items)
}

fn inbound(id: &str, profile: Option<&str>, identity: Option<&str>) -> InboundMessage {
    InboundMessage {
        message_id: id.to_string(),
        gateway_id: "relay".to_string(),
        sender_external_id: "user-1".to_string(),
        sender_display_name: None,
        reply_external_id: "local".to_string(),
        conversation: "relay:local".to_string(),
        group: None,
        identity: identity.map(str::to_string),
        profile: profile.map(str::to_string),
        person: None,
        content: "hello".to_string(),
        attachments: vec![],
        timestamp: 1000,
    }
}

fn subject(t: MemorySubjectType, id: &str) -> MemorySubject {
    MemorySubject { subject_type: t, subject_id: id.to_string(), role: Some("about".to_string()) }
}

#[test]
fn string_arrays_keep_trimmed_nonempty_strings() {
    let args = obj(vec![("ids", arr(vec![s(" a "), s("  "), Json::Bool(true), s("b")]))]);
    assert_eq!(string_array(&args, "ids"), vec!["a", "b"]);
    assert!(string_array(&args, "missing").is_empty());
    assert!(string_array(&obj(vec![("ids", s("a"))]), "ids").is_empty());
}

#[test]
fn plan_rejects_unavailable_explicit_evidence_message_ids() {
    let own = vec![inbound("msg-1", Some("profile-1"), None)];
    let args = obj(vec![
        ("content", s("likes tea")),
        ("evidence_message_ids", arr(vec![s("msg-1"), s("missing-1"), s("missing-2")])),
    ]);
    match plan_memory(&args, &own, None) {
        Err(e @ FormError::MissingEvidence(_)) => {
            if let FormError::MissingEvidence(ids) = &e {
                assert_eq!(ids, &vec!["missing-1".to_string(), "missing-2".to_string()]);
            }
            assert_eq!(
                e.message(),
                "Evidence message ids are not available in the current action: missing-1, missing-2"
            );
        }
        _ => panic!("expected missing evidence"),
    }
}

#[test]
fn plan_accepts_read_message_evidence() {
    let own = vec![inbound("msg-1", Some("profile-1"), None)];
    let read = vec![inbound("msg-read", Some("profile-2"), None)];
    let sources = evidence_source_messages(&own, &vec![], &read);
    assert_eq!(sources.len(), 2);
    let args = obj(vec![("evidence_message_ids", arr(vec![s("msg-read")]))]);
    let plan = plan_memory(&args, &sources, None).ok().expect("plan");
    assert_eq!(plan.evidence_message_ids, vec!["msg-read"]);
    assert!(matches!(&plan.subjects[..], [PlannedSubject::Profile(p)] if p == "profile-2"));
    let source = plan.source.expect("conversation source");
    assert_eq!(source.profile.as_deref(), Some("profile-2"));
    assert_eq!(source.message_id.as_deref(), Some("msg-read"));
}

#[test]
fn plan_defaults_evidence_to_current_action_messages() {
    let own = vec![inbound("msg-1", Some("profile-1"), Some("identity-1")), inbound("", None, None), inbound("msg-2", None, None)];
    let args = obj(vec![("content", s("note"))]);
    let plan = plan_memory(&args, &own, None).ok().expect("plan");
    assert_eq!(plan.evidence_message_ids, vec!["msg-1", "msg-2"]);
    assert!(matches!(&plan.subjects[..], [PlannedSubject::Profile(p)] if p == "profile-1"));
    let source = plan.source.expect("conversation source");
    assert_eq!(source.conversation, "relay:local");
    assert_eq!(source.identity.as_deref(), Some("identity-1"));
    assert_eq!(source.message_id.as_deref(), Some("msg-1"));
}

#[test]
fn plan_falls_back_to_identity_then_reflection() {
    let own = vec![inbound("msg-1", None, Some("identity-1"))];
    let plan = plan_memory(&obj(vec![]), &own, None).ok().expect("plan");
    assert!(matches!(&plan.subjects[..], [PlannedSubject::Identity(i)] if i == "identity-1"));

    let none: Vec<InboundMessage> = vec![];
    let plan = plan_memory(&obj(vec![]), &none, None).ok().expect("plan");
    assert!(plan.subjects.is_empty());
    assert!(plan.source.is_none());
    assert!(plan.evidence_message_ids.is_empty());

    let fallback = current_conversation(&Some("conv-9".to_string()), &none);
    let plan = plan_memory(&obj(vec![]), &none, fallback).ok().expect("plan");
    let source = plan.source.expect("source");
    assert_eq!(source.conversation, "conv-9");
    assert!(source.profile.is_none() && source.message_id.is_none());
}

#[test]
fn plan_refuses_person_subjects_and_mixed_actor_memories() {
    let own = vec![inbound("msg-1", Some("profile-1"), None)];
    let person = obj(vec![("subject_person_ids", arr(vec![s("person-1")]))]);
    let err = plan_memory(&person, &own, None).err().expect("refused");
    assert!(matches!(err, FormError::PersonSubjects));
    assert!(err.message().starts_with("form_memory no longer writes directly to person subjects."));

    let mixed = obj(vec![("subject_actor", Json::Bool(true)), ("subject_profile_ids", arr(vec![s("profile-1")]))]);
    let err = plan_memory(&mixed, &own, None).err().expect("refused");
    assert!(matches!(err, FormError::ActorMixed));
    assert_eq!(err.message(), "Actor self memories cannot be mixed with profile, identity, or person subjects.");

    let actor_only = obj(vec![("subject_actor", Json::Bool(true))]);
    let plan = plan_memory(&actor_only, &own, None).ok().expect("plan");
    assert!(matches!(&plan.subjects[..], [PlannedSubject::Actor]));
}

#[test]
fn plan_refuses_subjects_outside_the_evidence() {
    let own = vec![inbound("msg-1", Some("profile-1"), Some("identity-1"))];
    let other_profile = obj(vec![("subject_profile_ids", arr(vec![s("profile-2")]))]);
    let err = plan_memory(&other_profile, &own, None).err().expect("refused");
    assert!(matches!(err, FormError::ProfileOutside));
    assert_eq!(err.message(), "Refusing to save memory to a profile outside the current action messages.");

    let other_identity = obj(vec![("subject_identity_ids", arr(vec![s("identity-2")]))]);
    let err = plan_memory(&other_identity, &own, None).err().expect("refused");
    assert!(matches!(err, FormError::IdentityOutside));

    let both = obj(vec![
        ("subject_identity_ids", arr(vec![s("identity-1")])),
        ("subject_profile_ids", arr(vec![s("profile-1")])),
    ]);
    let plan = plan_memory(&both, &own, None).ok().expect("plan");
    assert!(matches!(&plan.subjects[..], [PlannedSubject::Identity(i), PlannedSubject::Profile(p)] if i == "identity-1" && p == "profile-1"));
}

#[test]
fn content_names_its_subjects_once() {
    let subjects = vec![subject(MemorySubjectType::Profile, "profile-1"), subject(MemorySubjectType::Person, "person-1")];
    let names = vec![None, Some("  Ada   Lovelace ".to_string())];
    let content = canonicalize_content_for_subjects("likes tea", &subjects, &names);
    assert_eq!(
        content,
        "Subjects involved:\n- profile profile-1\n- person person-1 (display name: Ada Lovelace)\nMemory: likes tea"
    );
    assert_eq!(canonicalize_content_for_subjects(&content, &subjects, &names), content);
    assert_eq!(memory_body(&content), "likes tea");
    assert_eq!(memory_body("plain"), "plain");
    assert_eq!(canonicalize_content_for_subjects("plain", &vec![], &vec![]), "plain");
}

#[test]
fn promotion_and_demotion_move_subjects() {
    let start = vec![subject(MemorySubjectType::Profile, "profile-1")];
    let promoted = promoted_subjects(&start, "person-1");
    assert_eq!(promoted.len(), 2);
    assert_eq!(promoted[1].subject_type, MemorySubjectType::Person);
    assert_eq!(promoted[1].role.as_deref(), Some("about"));
    assert_eq!(promoted_subjects(&promoted, "person-1").len(), 2);

    let back = demoted_subjects(&promoted, "profile-1", &Some("person-1".to_string()));
    assert_eq!(back.len(), 1);
    assert_eq!(back[0].subject_id, "profile-1");

    let two_people = promoted_subjects(&promoted, "person-2");
    let only_second_removed = demoted_subjects(&two_people, "profile-1", &Some("person-2".to_string()));
    assert_eq!(only_second_removed.len(), 2);
    let all_removed = demoted_subjects(&two_people, "profile-3", &None);
    let ids = all_removed.iter().map(|s| s.subject_id.as_str()).collect::<Vec<_>>();
    assert_eq!(ids, vec!["profile-1", "profile-3"]);
}

#[test]
fn promotion_and_demotion_arguments_are_required() {
    let ok = obj(vec![("memory_id", s(" mem-1 ")), ("person", s("person-1"))]);
    let (m, p) = promotion_args(&ok).ok().expect("args");
    assert_eq!((m.as_str(), p.as_str()), ("mem-1", "person-1"));
    let e = promotion_args(&obj(vec![("memory_id", s("  "))])).err().expect("missing");
    assert_eq!(e.message(), "Provide memory_id.");
    let e = promotion_args(&obj(vec![("memory_id", s("m"))])).err().expect("missing");
    assert_eq!(e.message(), "Provide person.");
    let e = demotion_args(&obj(vec![("memory_id", s("m"))])).err().expect("missing");
    assert_eq!(e.message(), "Provide profile.");
    let (_, profile, removed) = demotion_args(&obj(vec![("memory_id", s("m")), ("profile", s("p")), ("person", s(" q "))]))
        .ok()
        .expect("args");
    assert_eq!(profile, "p");
    assert_eq!(removed.as_deref(), Some("q"));
}

#[test]
fn recalled_memory_tracking_is_deduped_and_bounded() {
    let mut state = SessionState::new(&vec![]);
    remember_recalled_memory(&mut state, &"memory-a".to_string());
    remember_recalled_memory(&mut state, &"memory-a".to_string());
    assert_eq!(state.recalled_memory_ids, vec!["memory-a".to_string()]);

    for i in 0..40 {
        remember_recalled_memory(&mut state, &format!("memory-{i}"));
    }

    assert_eq!(state.recalled_memory_ids.len(), 32);
    assert!(!state.recalled_memory_ids.contains(&"memory-a".to_string()));
    assert!(state.recalled_memory_ids.contains(&"memory-39".to_string()));
}

#[test]
fn memory_numeric_fields_are_clamped() {
    assert_eq!(clamp_unit(-200_000), 0);
    assert_eq!(clamp_unit(1_200_000), 1_000_000);
    assert_eq!(clamp_valence(-1_200_000), -1_000_000);
    assert_eq!(clamp_valence(1_200_000), 1_000_000);
    assert_eq!(clamp_unit(500_000), 500_000);
}

#[test]
fn recall_preserves_store_order_within_the_same_relation() {
    let ranks = vec![7, 0, 3, 0, 7, 3];
    assert_eq!(recall_order(&ranks), vec![1, 3, 2, 5, 0, 4]);
    assert!(recall_order(&vec![]).is_empty());
}

#[test]
fn subject_relations_rank_the_nearest_first() {
    let mut current = inbound("msg-1", Some("profile-1"), Some("identity-1"));
    current.person = Some("person-1".to_string());
    let links = vec![ProfileLink {
        profile: "profile-2".to_string(),
        person: "person-1".to_string(),
        status: LinkStatus::Verified,
        confidence_micros: 900_000,
    }];
    let rel = |subjects: Vec<MemorySubject>, cur: Option<&InboundMessage>| current_subject_relation(&subjects, cur, &links);
    assert_eq!(rel(vec![subject(MemorySubjectType::Profile, "profile-1")], Some(&current)), SubjectRelation::SameProfile);
    assert_eq!(rel(vec![subject(MemorySubjectType::Identity, "identity-1")], Some(&current)), SubjectRelation::SameIdentity);
    assert_eq!(rel(vec![subject(MemorySubjectType::Person, "person-1")], Some(&current)), SubjectRelation::SamePerson);
    assert_eq!(
        rel(vec![subject(MemorySubjectType::Profile, "profile-2")], Some(&current)),
        SubjectRelation::VerifiedSamePersonProfile
    );
    assert_eq!(rel(vec![subject(MemorySubjectType::Profile, "profile-3")], Some(&current)), SubjectRelation::DifferentSubject);
    assert_eq!(rel(vec![], Some(&current)), SubjectRelation::Unlinked);
    assert_eq!(rel(vec![], None), SubjectRelation::Unknown);
    assert_eq!(SubjectRelation::VerifiedSamePersonProfile.as_str(), "verified_same_person_profile");
    assert_eq!(SubjectRelation::SameProfile.rank(), 0);
    assert_eq!(SubjectRelation::DifferentSubject.rank(), 7);
}

#[test]
fn recall_defaults_to_the_current_profile() {
    let current = inbound("msg-1", Some("profile-1"), Some("identity-1"));
    let plan = plan_recall(&obj(vec![("query", s("tea"))]), Some(&current));
    assert_eq!(plan.query, "tea");
    assert_eq!(plan.limit, 3);
    assert_eq!(plan.offset, 0);
    assert_eq!(plan.profile.as_deref(), Some("profile-1"));
    assert!(plan.identity.is_none());

    let global = plan_recall(&obj(vec![("scope", s("global"))]), Some(&current));
    assert!(global.profile.is_none() && global.identity.is_none());

    let no_profile = inbound("msg-1", None, Some("identity-1"));
    let plan = plan_recall(&obj(vec![]), Some(&no_profile));
    assert_eq!(plan.identity.as_deref(), Some("identity-1"));

    let sensitivity = obj(vec![
        ("max_sensitivity", Json::Number(JsonNumber { micros: 2_500_000, integral: false })),
        ("limit", Json::Number(JsonNumber { micros: 5_000_000, integral: true })),
    ]);
    let plan = plan_recall(&sensitivity, None);
    assert_eq!(plan.max_sensitivity_micros, Some(1_000_000));
    assert_eq!(plan.limit, 5);
}

#[test]
fn inspection_and_deletion_are_chosen_person_only() {
    let args = obj(vec![("memory_id", s("mem-1")), ("reason", s("  cleanup "))]);
    let e = by_id_request(&args, Authority::Default, ByIdTool::Inspect).err().expect("refused");
    assert_eq!(e.message(), "Chosen-person authority is required to inspect memories by id.");
    let e = by_id_request(&args, Authority::Trusted, ByIdTool::Delete).err().expect("refused");
    assert_eq!(e.message(), "Chosen-person authority is required to delete memories by id.");
    let (id, reason) = by_id_request(&args, Authority::ChosenPerson, ByIdTool::Delete).ok().expect("allowed");
    assert_eq!(id, "mem-1");
    assert_eq!(reason.as_deref(), Some("cleanup"));
    let e = by_id_request(&obj(vec![]), Authority::ChosenPerson, ByIdTool::Inspect).err().expect("missing");
    assert_eq!(e, ByIdError::MissingMemoryId);
    assert_eq!(actor::memory::forget_reply(true), "Memory forgotten.");
}

#[test]
fn memory_fields_default_and_clamp() {
    let f = actor::memory::read_memory_fields(&obj(vec![("content", s("likes tea"))]));
    assert_eq!(f.content, "likes tea");
    assert_eq!(f.importance_micros, 500_000);
    assert_eq!(f.sensitivity_micros, 0);
    assert_eq!(f.emotional_valence_micros, 0);
    assert_eq!(f.confidence_micros, 1_000_000);
    assert!(f.tags.is_empty());
    let f = actor::memory::read_memory_fields(&obj(vec![
        ("importance", Json::Number(JsonNumber { micros: 3_000_000, integral: true })),
        ("emotional_valence", Json::Number(JsonNumber { micros: -2_500_000, integral: false })),
        ("supersedes", s("   ")),
        ("contradiction_group", s(" g ")),
        ("tags", arr(vec![s(" food "), s("")])),
        ("subject_actor", Json::Bool(true)),
    ]));
    assert_eq!(f.importance_micros, 1_000_000);
    assert_eq!(f.emotional_valence_micros, -1_000_000);
    assert_eq!(f.supersedes, None);
    assert_eq!(f.contradiction_group.as_deref(), Some(" g "));
    assert_eq!(f.tags, vec!["food"]);
    assert!(f.subject_actor);
}

#[test]
fn saving_reports_the_stored_id() {
    assert_eq!(actor::memory::memory_saved_reply("mem-1", None), "Memory saved: mem-1");
    assert_eq!(
        actor::memory::memory_saved_reply("mem-1", Some("gone")),
        "Memory saved: mem-1, but failed to link superseded memory: gone"
    );
    assert!(actor::memory::links_superseded(&Some("mem-0".to_string()), &"mem-1".to_string()));
    assert!(!actor::memory::links_superseded(&Some("mem-1".to_string()), &"mem-1".to_string()));
    assert!(!actor::memory::links_superseded(&None, &"mem-1".to_string()));
}

fn key<'a>(j: &'a Json, k: &str) -> Option<&'a Json> {
    match j {
        Json::Object(entries) => entries.iter().find(|(name, _)| name == k).map(|(_, v)| v),
        _ => None,
    }
}

#[test]
fn a_saved_memory_is_recorded_and_supersedes_the_old_one() {
    let mut state = SessionState::new(&vec![]);
    let reply = finish_form(&mut state, Ok("mem-new".to_string()), None);
    assert_eq!(reply, "Memory saved: mem-new");
    assert_eq!(state.memories_formed, vec!["mem-new".to_string()]);
    let u = supersede_update(&Some("mem-old".to_string()), &"mem-new".to_string()).expect("update");
    assert_eq!((u.memory_id.as_str(), u.truth_status.as_str(), u.superseded_by.as_str()), ("mem-old", "outdated", "mem-new"));
    assert!(supersede_update(&Some("mem-new".to_string()), &"mem-new".to_string()).is_none());
    assert!(supersede_update(&None, &"mem-new".to_string()).is_none());
}

#[test]
fn a_failed_save_or_link_leaves_the_session_alone() {
    let mut state = SessionState::new(&vec![]);
    assert_eq!(finish_form(&mut state, Err("disk full".to_string()), None), "Failed to save memory: disk full");
    let r = finish_form(&mut state, Ok("m".to_string()), Some("locked".to_string()));
    assert_eq!(r, "Memory saved: m, but failed to link superseded memory: locked");
    assert!(state.memories_formed.is_empty());
}

#[test]
fn recall_lists_memories_in_order_and_records_each_once() {
    let r = recall_reply(vec![s("a"), s("b"), s("c")], &vec![2, 0, 1]);
    match key(&r, "memories") {
        Some(Json::Array(items)) => {
            let texts: Vec<&str> = items.iter().map(|j| match j { Json::Str(t) => t.as_str(), _ => "" }).collect();
            assert_eq!(texts, vec!["c", "a", "b"]);
        }
        _ => panic!("memories"),
    }
    let mut state = SessionState::new(&vec![]);
    remember_recalled_memories(&mut state, &vec!["m1".to_string(), "m2".to_string(), "m1".to_string()]);
    assert_eq!(state.recalled_memory_ids, vec!["m1".to_string(), "m2".to_string()]);
}

#[test]
fn moved_memories_keep_their_body_under_new_subjects() {
    let subjects = vec![subject(MemorySubjectType::Profile, "profile-1")];
    let names = vec![None];
    let stored = canonicalize_content_for_subjects("likes tea", &subjects, &names);
    assert_eq!(memory_body(&stored), "likes tea");
    let moved = moved_content(&stored, &subjects, &names);
    assert_eq!(moved, stored);
    let r = demoted_reply("m1".to_string(), "profile-1".to_string(), Some("person-1".to_string()), None);
    assert!(matches!(key(&r, "status"), Some(Json::Str(t)) if t == "demoted"));
    assert!(matches!(key(&r, "reason"), Some(Json::Null)));
    assert!(matches!(key(&r, "removed_person"), Some(Json::Str(t)) if t == "person-1"));
    let r = promoted_reply("m1".to_string(), "person-1".to_string(), Some("same person".to_string()));
    assert!(matches!(key(&r, "status"), Some(Json::Str(t)) if t == "promoted"));
    assert!(matches!(key(&r, "person"), Some(Json::Str(t)) if t == "person-1"));
}
