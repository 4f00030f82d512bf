use actor::json::Json;
use actor::model::ActionKind;
use actor::tools::Tool;

fn find(tools: Vec<Tool>, name: &str) -> Option<Tool> {
    tools.into_iter().find(|tool| tool.name == name)
}

fn text_at<'a>(value: &'a Json, path: &[&str]) -> Option<&'a str> {
    let mut current = value;
    for key in path {
        current = current.get(key)?;
    }
    match current {
        Json::Str(s) => Some(s.as_str()),
        _ => None,
    }
}

fn properties(tool: &Tool) -> &Json {
    tool.parameters.get("properties").expect("properties")
}

fn check_style_directive() {
    let respond = find(actor::tools::decision::tools(), "respond").expect("respond tool exists");
    let description = text_at(&respond.parameters, &["properties", "style_directive", "description"])
        .expect("style_directive description exists");

    assert!(description.contains("adapt"));
    assert!(description.contains("without copying every quirk"));
    assert!(!description.contains("mirror"));
    assert!(!description.contains("mirrors"));
}

#[test]
fn decision_style_directive_schema_uses_adaptation_not_mirroring() {
    check_style_directive();
}

#[test]
fn mod_style_directive_schema_uses_adaptation_not_mirroring() {
    check_style_directive();
}

#[test]
fn intent_tools_expose_source_memory_attribution() {
    for tool_name in ["create_intent", "update_intent"] {
        let tool = find(actor::tools::intent::tools(), tool_name).expect("intent tool exists");
        assert!(properties(&tool).get("source_memory_id").is_some());
    }
}

#[test]
fn form_memory_exposes_existing_structured_fields() {
    let tool = find(actor::tools::memory::tools(), "form_memory").expect("form_memory exists");
    let properties = properties(&tool);

    assert!(properties.get("tags").is_some());
    assert!(properties.get("sensitivity").is_some());
    assert!(properties.get("emotional_valence").is_some());
    assert!(properties.get("memory_type").is_some());
    assert!(properties.get("truth_status").is_some());
    assert!(properties.get("confidence").is_some());
    assert!(properties.get("evidence_message_ids").is_some());
    assert!(properties.get("source_spans").is_some());
    assert!(properties.get("evidence").is_some());
    assert!(properties.get("dedupe_key").is_some());
    assert!(properties.get("subject_actor").is_some());
    assert!(properties.get("supersedes").is_some());
    assert!(properties.get("contradiction_group").is_some());
    assert!(properties.get("last_confirmed_at").is_some());
    assert!(properties.get("next_review_at").is_some());
    assert!(properties.get("include_sensitive").is_none());
}

#[test]
fn recall_memory_schema_exposes_sensitive_opt_in() {
    let tool = find(actor::tools::memory::tools(), "recall_memories").expect("recall_memories exists");
    let properties = properties(&tool);

    assert!(properties.get("max_sensitivity").is_some());
    assert!(properties.get("include_sensitive").is_some());
    assert!(properties.get("include_superseded").is_some());
}

#[test]
fn memory_tools_expose_chosen_person_inspection_and_deletion() {
    let tools = actor::tools::memory::tools();
    let names = tools.into_iter().map(|tool| tool.name).collect::<Vec<_>>();

    assert!(names.contains(&"inspect_memory".to_string()));
    assert!(names.contains(&"delete_memory".to_string()));
}

#[test]
fn messaging_tools_drop_send_for_background_actions() {
    let names = |kind| {
        actor::flow::messaging_tools_for(kind)
            .into_iter()
            .map(|tool| tool.name)
            .collect::<Vec<_>>()
    };
    assert_eq!(names(ActionKind::Respond), vec!["send_message", "read_messages", "update_conversation_summary"]);
    assert_eq!(names(ActionKind::Review), vec!["read_messages", "update_conversation_summary"]);
    assert_eq!(names(ActionKind::Ruminate), vec!["read_messages", "update_conversation_summary"]);
}

#[test]
fn schemas_are_objects_with_sorted_keys() {
    let all = [
        actor::tools::decision::tools(),
        actor::tools::intent::tools(),
        actor::tools::memory::tools(),
        actor::tools::messaging::tools(),
        actor::tools::action_tools(),
    ];
    for group in all {
        for tool in group {
            match &tool.parameters {
                Json::Object(entries) => {
                    let keys = entries.iter().map(|(k, _)| k.clone()).collect::<Vec<_>>();
                    let mut sorted = keys.clone();
                    sorted.sort();
                    assert_eq!(keys, sorted, "{}", tool.name);
                    assert_eq!(text_at(&tool.parameters, &["type"]), Some("object"));
                }
                _ => panic!("schema of {} is not an object", tool.name),
            }
        }
    }
}

fn field<'a>(value: &'a Json, key: &str) -> Option<&'a Json> {
    match value {
        Json::Object(entries) => entries.iter().find(|(k, _)| k == key).map(|(_, v)| v),
        _ => None,
    }
}

fn required(tool: &Tool) -> Option<Vec<String>> {
    match field(&tool.parameters, "required") {
        Some(Json::Array(items)) => Some(
            items.iter().filter_map(|j| match j { Json::Str(s) => Some(s.clone()), _ => None }).collect(),
        ),
        _ => None,
    }
}

#[test]
fn messaging_schemas_state_required_arguments_and_the_read_default() {
    let tools = actor::tools::messaging::tools();
    let names: Vec<&str> = tools.iter().map(|t| t.name.as_str()).collect();
    assert_eq!(names, vec!["send_message", "read_messages", "update_conversation_summary"]);
    assert_eq!(required(&tools[0]), Some(vec!["content".to_string()]));
    assert_eq!(required(&tools[2]), Some(vec!["summary".to_string()]));
    assert_eq!(required(&tools[1]), None);
    let limit = field(field(&tools[1].parameters, "properties").expect("properties"), "limit").expect("limit");
    assert!(matches!(field(limit, "default"), Some(Json::Number(n)) if n.micros == 10_000_000 && n.integral));
}
