//! Intents: scheduled or triggered follow-ups.
use vstd::prelude::*;
use crate::json::{Json, JView, JsonNumber, jarr, jint, jkv, jmicros, jobj, jstr, jview};
use crate::text::owned;
use crate::tools::{Tool, tool_names};

verus! {

/// The schema of `create_intent`'s arguments.
pub open spec fn create_intent_schema() -> JView {
    JView::Object(
        seq![
            ("properties"@, JView::Object(
                seq![
                    ("condition"@, JView::Object(
                        seq![
                            ("description"@, JView::Str("Natural language condition for triggered intents, e.g. 'next time Sam messages'"@)),
                            ("type"@, JView::Str("string"@)),
                        ],
                    )),
                    ("conversation"@, JView::Object(
                        seq![
                            ("description"@, JView::Str("Conversation ID for context"@)),
                            ("type"@, JView::Str("string"@)),
                        ],
                    )),
                    ("dedupe_key"@, JView::Object(
                        seq![
                            ("description"@, JView::Str("Optional stable key to avoid duplicate equivalent intents"@)),
                            ("type"@, JView::Str("string"@)),
                        ],
                    )),
                    ("fire_at"@, JView::Object(
                        seq![
                            ("description"@, JView::Str("Unix timestamp for scheduled intents"@)),
                            ("type"@, JView::Str("integer"@)),
                        ],
                    )),
                    ("kind"@, JView::Object(
                        seq![
                            ("description"@, JView::Str("scheduled = at a specific time, triggered = when a condition is met"@)),
                            ("enum"@, JView::Array(seq![JView::Str("scheduled"@), JView::Str("triggered"@)])),
                            ("type"@, JView::Str("string"@)),
                        ],
                    )),
                    ("person"@, JView::Object(
                        seq![
                            ("description"@, JView::Str("Person ID this intent relates to"@)),
                            ("type"@, JView::Str("string"@)),
                        ],
                    )),
                    ("priority"@, JView::Object(
                        seq![
                            ("default"@, JView::Number(JsonNumber { micros: 50000000, integral: true })),
                            ("description"@, JView::Str("0 to 100 priority. Higher fires first when multiple intents are due."@)),
                            ("type"@, JView::Str("integer"@)),
                        ],
                    )),
                    ("profile"@, JView::Object(
                        seq![
                            ("description"@, JView::Str("Profile ID this intent relates to"@)),
                            ("type"@, JView::Str("string"@)),
                        ],
                    )),
                    ("recurrence"@, JView::Object(
                        seq![
                            ("description"@, JView::Str("Optional recurrence rule for future expansion"@)),
                            ("type"@, JView::Str("string"@)),
                        ],
                    )),
                    ("requires_chosen_person_approval"@, JView::Object(
                        seq![
                            ("description"@, JView::Str("Set true when this intent should not proactively contact anyone until the chosen person has approved it."@)),
                            ("type"@, JView::Str("boolean"@)),
                        ],
                    )),
                    ("sensitive"@, JView::Object(
                        seq![
                            ("description"@, JView::Str("Set true when the follow-up involves private, medical, legal, financial, identity, credential, or otherwise sensitive content. Sensitive outreach requires chosen-person approval."@)),
                            ("type"@, JView::Str("boolean"@)),
                        ],
                    )),
                    ("source_memory_id"@, JView::Object(
                        seq![
                            ("description"@, JView::Str("Optional memory id that explains why this intent exists, such as a commitment or open-loop memory."@)),
                            ("type"@, JView::Str("string"@)),
                        ],
                    )),
                    ("task"@, JView::Object(
                        seq![
                            ("description"@, JView::Str("What to do when the intent fires"@)),
                            ("type"@, JView::Str("string"@)),
                        ],
                    )),
                ],
            )),
            ("required"@, JView::Array(seq![JView::Str("task"@), JView::Str("kind"@)])),
            ("type"@, JView::Str("object"@)),
        ],
    )
}

fn create_intent_parameters() -> (j: Json)
    ensures
        j@ == create_intent_schema(),
{
    let condition_entries = vec![jkv("description", jstr("Natural language condition for triggered intents, e.g. 'next time Sam messages'")), jkv("type", jstr("string"))];
    proof {
        assert(condition_entries@.map_values(|e: (String, Json)| (e.0@, jview(e.1))) =~= seq![("description"@, JView::Str("Natural language condition for triggered intents, e.g. 'next time Sam messages'"@)), ("type"@, JView::Str("string"@))]);
    }
    let condition = jobj(condition_entries);
    let conversation_entries = vec![jkv("description", jstr("Conversation ID for context")), jkv("type", jstr("string"))];
    proof {
        assert(conversation_entries@.map_values(|e: (String, Json)| (e.0@, jview(e.1))) =~= seq![("description"@, JView::Str("Conversation ID for context"@)), ("type"@, JView::Str("string"@))]);
    }
    let conversation = jobj(conversation_entries);
    let dedupe_key_entries = vec![jkv("description", jstr("Optional stable key to avoid duplicate equivalent intents")), jkv("type", jstr("string"))];
    proof {
        assert(dedupe_key_entries@.map_values(|e: (String, Json)| (e.0@, jview(e.1))) =~= seq![("description"@, JView::Str("Optional stable key to avoid duplicate equivalent intents"@)), ("type"@, JView::Str("string"@))]);
    }
    let dedupe_key = jobj(dedupe_key_entries);
    let fire_at_entries = vec![jkv("description", jstr("Unix timestamp for scheduled intents")), jkv("type", jstr("integer"))];
    proof {
        assert(fire_at_entries@.map_values(|e: (String, Json)| (e.0@, jview(e.1))) =~= seq![("description"@, JView::Str("Unix timestamp for scheduled intents"@)), ("type"@, JView::Str("integer"@))]);
    }
    let fire_at = jobj(fire_at_entries);
    let enum__items = vec![jstr("scheduled"), jstr("triggered")];
    proof {
        assert(enum__items@.map_values(|x: Json| jview(x)) =~= seq![JView::Str("scheduled"@), JView::Str("triggered"@)]);
    }
    let enum_ = jarr(enum__items);
    let kind_entries = vec![jkv("description", jstr("scheduled = at a specific time, triggered = when a condition is met")), jkv("enum", enum_), jkv("type", jstr("string"))];
    proof {
        assert(kind_entries@.map_values(|e: (String, Json)| (e.0@, jview(e.1))) =~= seq![("description"@, JView::Str("scheduled = at a specific time, triggered = when a condition is met"@)), ("enum"@, enum_@), ("type"@, JView::Str("string"@))]);
    }
    let kind = jobj(kind_entries);
    let person_entries = vec![jkv("description", jstr("Person ID this intent relates to")), jkv("type", jstr("string"))];
    proof {
        assert(person_entries@.map_values(|e: (String, Json)| (e.0@, jview(e.1))) =~= seq![("description"@, JView::Str("Person ID this intent relates to"@)), ("type"@, JView::Str("string"@))]);
    }
    let person = jobj(person_entries);
    let priority_entries = vec![jkv("default", jint(50)), jkv("description", jstr("0 to 100 priority. Higher fires first when multiple intents are due.")), jkv("type", jstr("integer"))];
    proof {
        assert(priority_entries@.map_values(|e: (String, Json)| (e.0@, jview(e.1))) =~= seq![("default"@, JView::Number(JsonNumber { micros: 50000000, integral: true })), ("description"@, JView::Str("0 to 100 priority. Higher fires first when multiple intents are due."@)), ("type"@, JView::Str("integer"@))]);
    }
    let priority = jobj(priority_entries);
    let profile_entries = vec![jkv("description", jstr("Profile ID this intent relates to")), jkv("type", jstr("string"))];
    proof {
        assert(profile_entries@.map_values(|e: (String, Json)| (e.0@, jview(e.1))) =~= seq![("description"@, JView::Str("Profile ID this intent relates to"@)), ("type"@, JView::Str("string"@))]);
    }
    let profile = jobj(profile_entries);
    let recurrence_entries = vec![jkv("description", jstr("Optional recurrence rule for future expansion")), jkv("type", jstr("string"))];
    proof {
        assert(recurrence_entries@.map_values(|e: (String, Json)| (e.0@, jview(e.1))) =~= seq![("description"@, JView::Str("Optional recurrence rule for future expansion"@)), ("type"@, JView::Str("string"@))]);
    }
    let recurrence = jobj(recurrence_entries);
    let requires_chosen_person_approval_entries = vec![jkv("description", jstr("Set true when this intent should not proactively contact anyone until the chosen person has approved it.")), jkv("type", jstr("boolean"))];
    proof {
        assert(requires_chosen_person_approval_entries@.map_values(|e: (String, Json)| (e.0@, jview(e.1))) =~= seq![("description"@, JView::Str("Set true when this intent should not proactively contact anyone until the chosen person has approved it."@)), ("type"@, JView::Str("boolean"@))]);
    }
    let requires_chosen_person_approval = jobj(requires_chosen_person_approval_entries);
    let sensitive_entries = vec![jkv("description", jstr("Set true when the follow-up involves private, medical, legal, financial, identity, credential, or otherwise sensitive content. Sensitive outreach requires chosen-person approval.")), jkv("type", jstr("boolean"))];
    proof {
        assert(sensitive_entries@.map_values(|e: (String, Json)| (e.0@, jview(e.1))) =~= seq![("description"@, JView::Str("Set true when the follow-up involves private, medical, legal, financial, identity, credential, or otherwise sensitive content. Sensitive outreach requires chosen-person approval."@)), ("type"@, JView::Str("boolean"@))]);
    }
    let sensitive = jobj(sensitive_entries);
    let source_memory_id_entries = vec![jkv("description", jstr("Optional memory id that explains why this intent exists, such as a commitment or open-loop memory.")), jkv("type", jstr("string"))];
    proof {
        assert(source_memory_id_entries@.map_values(|e: (String, Json)| (e.0@, jview(e.1))) =~= seq![("description"@, JView::Str("Optional memory id that explains why this intent exists, such as a commitment or open-loop memory."@)), ("type"@, JView::Str("string"@))]);
    }
    let source_memory_id = jobj(source_memory_id_entries);
    let task_entries = vec![jkv("description", jstr("What to do when the intent fires")), jkv("type", jstr("string"))];
    proof {
        assert(task_entries@.map_values(|e: (String, Json)| (e.0@, jview(e.1))) =~= seq![("description"@, JView::Str("What to do when the intent fires"@)), ("type"@, JView::Str("string"@))]);
    }
    let task = jobj(task_entries);
    let properties_entries = vec![jkv("condition", condition), jkv("conversation", conversation), jkv("dedupe_key", dedupe_key), jkv("fire_at", fire_at), jkv("kind", kind), jkv("person", person), jkv("priority", priority), jkv("profile", profile), jkv("recurrence", recurrence), jkv("requires_chosen_person_approval", requires_chosen_person_approval), jkv("sensitive", sensitive), jkv("source_memory_id", source_memory_id), jkv("task", task)];
    proof {
        assert(properties_entries@.map_values(|e: (String, Json)| (e.0@, jview(e.1))) =~= seq![("condition"@, condition@), ("conversation"@, conversation@), ("dedupe_key"@, dedupe_key@), ("fire_at"@, fire_at@), ("kind"@, kind@), ("person"@, person@), ("priority"@, priority@), ("profile"@, profile@), ("recurrence"@, recurrence@), ("requires_chosen_person_approval"@, requires_chosen_person_approval@), ("sensitive"@, sensitive@), ("source_memory_id"@, source_memory_id@), ("task"@, task@)]);
    }
    let properties = jobj(properties_entries);
    let required_items = vec![jstr("task"), jstr("kind")];
    proof {
        assert(required_items@.map_values(|x: Json| jview(x)) =~= seq![JView::Str("task"@), JView::Str("kind"@)]);
    }
    let required = jarr(required_items);
    let schema_entries = vec![jkv("properties", properties), jkv("required", required), jkv("type", jstr("object"))];
    proof {
        assert(schema_entries@.map_values(|e: (String, Json)| (e.0@, jview(e.1))) =~= seq![("properties"@, properties@), ("required"@, required@), ("type"@, JView::Str("object"@))]);
    }
    let schema = jobj(schema_entries);
    schema
}

/// The schema of `update_intent`'s arguments.
pub open spec fn update_intent_schema() -> JView {
    JView::Object(
        seq![
            ("properties"@, JView::Object(
                seq![
                    ("condition"@, JView::Object(
                        seq![
                            ("description"@, JView::Str("New condition for triggered intents"@)),
                            ("type"@, JView::Str("string"@)),
                        ],
                    )),
                    ("conversation"@, JView::Object(
                        seq![
                            ("description"@, JView::Str("New conversation ID"@)),
                            ("type"@, JView::Str("string"@)),
                        ],
                    )),
                    ("dedupe_key"@, JView::Object(
                        seq![
                            ("description"@, JView::Str("New dedupe key"@)),
                            ("type"@, JView::Str("string"@)),
                        ],
                    )),
                    ("fire_at"@, JView::Object(
                        seq![
                            ("description"@, JView::Str("New fire time (unix timestamp) for scheduled intents"@)),
                            ("type"@, JView::Str("integer"@)),
                        ],
                    )),
                    ("intent_id"@, JView::Object(
                        seq![
                            ("description"@, JView::Str("ID of the intent to update"@)),
                            ("type"@, JView::Str("string"@)),
                        ],
                    )),
                    ("kind"@, JView::Object(
                        seq![
                            ("description"@, JView::Str("New intent kind"@)),
                            ("enum"@, JView::Array(seq![JView::Str("scheduled"@), JView::Str("triggered"@)])),
                            ("type"@, JView::Str("string"@)),
                        ],
                    )),
                    ("person"@, JView::Object(
                        seq![
                            ("description"@, JView::Str("New person ID"@)),
                            ("type"@, JView::Str("string"@)),
                        ],
                    )),
                    ("priority"@, JView::Object(
                        seq![
                            ("description"@, JView::Str("New priority from 0 to 100"@)),
                            ("type"@, JView::Str("integer"@)),
                        ],
                    )),
                    ("profile"@, JView::Object(
                        seq![
                            ("description"@, JView::Str("New profile ID"@)),
                            ("type"@, JView::Str("string"@)),
                        ],
                    )),
                    ("recurrence"@, JView::Object(
                        seq![
                            ("description"@, JView::Str("New recurrence rule"@)),
                            ("type"@, JView::Str("string"@)),
                        ],
                    )),
                    ("requires_chosen_person_approval"@, JView::Object(
                        seq![
                            ("description"@, JView::Str("Set true when this intent should not proactively contact anyone until the chosen person has approved it."@)),
                            ("type"@, JView::Str("boolean"@)),
                        ],
                    )),
                    ("sensitive"@, JView::Object(
                        seq![
                            ("description"@, JView::Str("Set true when the updated follow-up involves sensitive content. Sensitive outreach requires chosen-person approval."@)),
                            ("type"@, JView::Str("boolean"@)),
                        ],
                    )),
                    ("source_memory_id"@, JView::Object(
                        seq![
                            ("description"@, JView::Str("Memory id that explains why this intent exists."@)),
                            ("type"@, JView::Str("string"@)),
                        ],
                    )),
                    ("status"@, JView::Object(
                        seq![
                            ("description"@, JView::Str("New intent status"@)),
                            ("enum"@, JView::Array(seq![JView::Str("active"@), JView::Str("pending_approval"@), JView::Str("fired"@), JView::Str("completed"@), JView::Str("cancelled"@)])),
                            ("type"@, JView::Str("string"@)),
                        ],
                    )),
                    ("task"@, JView::Object(
                        seq![
                            ("description"@, JView::Str("New task description"@)),
                            ("type"@, JView::Str("string"@)),
                        ],
                    )),
                ],
            )),
            ("required"@, JView::Array(seq![JView::Str("intent_id"@)])),
            ("type"@, JView::Str("object"@)),
        ],
    )
}

fn update_intent_parameters() -> (j: Json)
    ensures
        j@ == update_intent_schema(),
{
    let condition_entries = vec![jkv("description", jstr("New condition for triggered intents")), jkv("type", jstr("string"))];
    proof {
        assert(condition_entries@.map_values(|e: (String, Json)| (e.0@, jview(e.1))) =~= seq![("description"@, JView::Str("New condition for triggered intents"@)), ("type"@, JView::Str("string"@))]);
    }
    let condition = jobj(condition_entries);
    let conversation_entries = vec![jkv("description", jstr("New conversation ID")), jkv("type", jstr("string"))];
    proof {
        assert(conversation_entries@.map_values(|e: (String, Json)| (e.0@, jview(e.1))) =~= seq![("description"@, JView::Str("New conversation ID"@)), ("type"@, JView::Str("string"@))]);
    }
    let conversation = jobj(conversation_entries);
    let dedupe_key_entries = vec![jkv("description", jstr("New dedupe key")), jkv("type", jstr("string"))];
    proof {
        assert(dedupe_key_entries@.map_values(|e: (String, Json)| (e.0@, jview(e.1))) =~= seq![("description"@, JView::Str("New dedupe key"@)), ("type"@, JView::Str("string"@))]);
    }
    let dedupe_key = jobj(dedupe_key_entries);
    let fire_at_entries = vec![jkv("description", jstr("New fire time (unix timestamp) for scheduled intents")), jkv("type", jstr("integer"))];
    proof {
        assert(fire_at_entries@.map_values(|e: (String, Json)| (e.0@, jview(e.1))) =~= seq![("description"@, JView::Str("New fire time (unix timestamp) for scheduled intents"@)), ("type"@, JView::Str("integer"@))]);
    }
    let fire_at = jobj(fire_at_entries);
    let intent_id_entries = vec![jkv("description", jstr("ID of the intent to update")), jkv("type", jstr("string"))];
    proof {
        assert(intent_id_entries@.map_values(|e: (String, Json)| (e.0@, jview(e.1))) =~= seq![("description"@, JView::Str("ID of the intent to update"@)), ("type"@, JView::Str("string"@))]);
    }
    let intent_id = jobj(intent_id_entries);
    let enum__items = vec![jstr("scheduled"), jstr("triggered")];
    proof {
        assert(enum__items@.map_values(|x: Json| jview(x)) =~= seq![JView::Str("scheduled"@), JView::Str("triggered"@)]);
    }
    let enum_ = jarr(enum__items);
    let kind_entries = vec![jkv("description", jstr("New intent kind")), jkv("enum", enum_), jkv("type", jstr("string"))];
    proof {
        assert(kind_entries@.map_values(|e: (String, Json)| (e.0@, jview(e.1))) =~= seq![("description"@, JView::Str("New intent kind"@)), ("enum"@, enum_@), ("type"@, JView::Str("string"@))]);
    }
    let kind = jobj(kind_entries);
    let person_entries = vec![jkv("description", jstr("New person ID")), jkv("type", jstr("string"))];
    proof {
        assert(person_entries@.map_values(|e: (String, Json)| (e.0@, jview(e.1))) =~= seq![("description"@, JView::Str("New person ID"@)), ("type"@, JView::Str("string"@))]);
    }
    let person = jobj(person_entries);
    let priority_entries = vec![jkv("description", jstr("New priority from 0 to 100")), jkv("type", jstr("integer"))];
    proof {
        assert(priority_entries@.map_values(|e: (String, Json)| (e.0@, jview(e.1))) =~= seq![("description"@, JView::Str("New priority from 0 to 100"@)), ("type"@, JView::Str("integer"@))]);
    }
    let priority = jobj(priority_entries);
    let profile_entries = vec![jkv("description", jstr("New profile ID")), jkv("type", jstr("string"))];
    proof {
        assert(profile_entries@.map_values(|e: (String, Json)| (e.0@, jview(e.1))) =~= seq![("description"@, JView::Str("New profile ID"@)), ("type"@, JView::Str("string"@))]);
    }
    let profile = jobj(profile_entries);
    let recurrence_entries = vec![jkv("description", jstr("New recurrence rule")), jkv("type", jstr("string"))];
    proof {
        assert(recurrence_entries@.map_values(|e: (String, Json)| (e.0@, jview(e.1))) =~= seq![("description"@, JView::Str("New recurrence rule"@)), ("type"@, JView::Str("string"@))]);
    }
    let recurrence = jobj(recurrence_entries);
    let requires_chosen_person_approval_entries = vec![jkv("description", jstr("Set true when this intent should not proactively contact anyone until the chosen person has approved it.")), jkv("type", jstr("boolean"))];
    proof {
        assert(requires_chosen_person_approval_entries@.map_values(|e: (String, Json)| (e.0@, jview(e.1))) =~= seq![("description"@, JView::Str("Set true when this intent should not proactively contact anyone until the chosen person has approved it."@)), ("type"@, JView::Str("boolean"@))]);
    }
    let requires_chosen_person_approval = jobj(requires_chosen_person_approval_entries);
    let sensitive_entries = vec![jkv("description", jstr("Set true when the updated follow-up involves sensitive content. Sensitive outreach requires chosen-person approval.")), jkv("type", jstr("boolean"))];
    proof {
        assert(sensitive_entries@.map_values(|e: (String, Json)| (e.0@, jview(e.1))) =~= seq![("description"@, JView::Str("Set true when the updated follow-up involves sensitive content. Sensitive outreach requires chosen-person approval."@)), ("type"@, JView::Str("boolean"@))]);
    }
    let sensitive = jobj(sensitive_entries);
    let source_memory_id_entries = vec![jkv("description", jstr("Memory id that explains why this intent exists.")), jkv("type", jstr("string"))];
    proof {
        assert(source_memory_id_entries@.map_values(|e: (String, Json)| (e.0@, jview(e.1))) =~= seq![("description"@, JView::Str("Memory id that explains why this intent exists."@)), ("type"@, JView::Str("string"@))]);
    }
    let source_memory_id = jobj(source_memory_id_entries);
    let enum__2_items = vec![jstr("active"), jstr("pending_approval"), jstr("fired"), jstr("completed"), jstr("cancelled")];
    proof {
        assert(enum__2_items@.map_values(|x: Json| jview(x)) =~= seq![JView::Str("active"@), JView::Str("pending_approval"@), JView::Str("fired"@), JView::Str("completed"@), JView::Str("cancelled"@)]);
    }
    let enum__2 = jarr(enum__2_items);
    let status_entries = vec![jkv("description", jstr("New intent status")), jkv("enum", enum__2), jkv("type", jstr("string"))];
    proof {
        assert(status_entries@.map_values(|e: (String, Json)| (e.0@, jview(e.1))) =~= seq![("description"@, JView::Str("New intent status"@)), ("enum"@, enum__2@), ("type"@, JView::Str("string"@))]);
    }
    let status = jobj(status_entries);
    let task_entries = vec![jkv("description", jstr("New task description")), jkv("type", jstr("string"))];
    proof {
        assert(task_entries@.map_values(|e: (String, Json)| (e.0@, jview(e.1))) =~= seq![("description"@, JView::Str("New task description"@)), ("type"@, JView::Str("string"@))]);
    }
    let task = jobj(task_entries);
    let properties_entries = vec![jkv("condition", condition), jkv("conversation", conversation), jkv("dedupe_key", dedupe_key), jkv("fire_at", fire_at), jkv("intent_id", intent_id), jkv("kind", kind), jkv("person", person), jkv("priority", priority), jkv("profile", profile), jkv("recurrence", recurrence), jkv("requires_chosen_person_approval", requires_chosen_person_approval), jkv("sensitive", sensitive), jkv("source_memory_id", source_memory_id), jkv("status", status), jkv("task", task)];
    proof {
        assert(properties_entries@.map_values(|e: (String, Json)| (e.0@, jview(e.1))) =~= seq![("condition"@, condition@), ("conversation"@, conversation@), ("dedupe_key"@, dedupe_key@), ("fire_at"@, fire_at@), ("intent_id"@, intent_id@), ("kind"@, kind@), ("person"@, person@), ("priority"@, priority@), ("profile"@, profile@), ("recurrence"@, recurrence@), ("requires_chosen_person_approval"@, requires_chosen_person_approval@), ("sensitive"@, sensitive@), ("source_memory_id"@, source_memory_id@), ("status"@, status@), ("task"@, task@)]);
    }
    let properties = jobj(properties_entries);
    let required_items = vec![jstr("intent_id")];
    proof {
        assert(required_items@.map_values(|x: Json| jview(x)) =~= seq![JView::Str("intent_id"@)]);
    }
    let required = jarr(required_items);
    let schema_entries = vec![jkv("properties", properties), jkv("required", required), jkv("type", jstr("object"))];
    proof {
        assert(schema_entries@.map_values(|e: (String, Json)| (e.0@, jview(e.1))) =~= seq![("properties"@, properties@), ("required"@, required@), ("type"@, JView::Str("object"@))]);
    }
    let schema = jobj(schema_entries);
    schema
}

/// The schema of `delete_intent`'s arguments.
pub open spec fn delete_intent_schema() -> JView {
    JView::Object(
        seq![
            ("properties"@, JView::Object(
                seq![
                    ("intent_id"@, JView::Object(
                        seq![
                            ("description"@, JView::Str("ID of the intent to cancel"@)),
                            ("type"@, JView::Str("string"@)),
                        ],
                    )),
                ],
            )),
            ("required"@, JView::Array(seq![JView::Str("intent_id"@)])),
            ("type"@, JView::Str("object"@)),
        ],
    )
}

fn delete_intent_parameters() -> (j: Json)
    ensures
        j@ == delete_intent_schema(),
{
    let intent_id_entries = vec![jkv("description", jstr("ID of the intent to cancel")), jkv("type", jstr("string"))];
    proof {
        assert(intent_id_entries@.map_values(|e: (String, Json)| (e.0@, jview(e.1))) =~= seq![("description"@, JView::Str("ID of the intent to cancel"@)), ("type"@, JView::Str("string"@))]);
    }
    let intent_id = jobj(intent_id_entries);
    let properties_entries = vec![jkv("intent_id", intent_id)];
    proof {
        assert(properties_entries@.map_values(|e: (String, Json)| (e.0@, jview(e.1))) =~= seq![("intent_id"@, intent_id@)]);
    }
    let properties = jobj(properties_entries);
    let required_items = vec![jstr("intent_id")];
    proof {
        assert(required_items@.map_values(|x: Json| jview(x)) =~= seq![JView::Str("intent_id"@)]);
    }
    let required = jarr(required_items);
    let schema_entries = vec![jkv("properties", properties), jkv("required", required), jkv("type", jstr("object"))];
    proof {
        assert(schema_entries@.map_values(|e: (String, Json)| (e.0@, jview(e.1))) =~= seq![("properties"@, properties@), ("required"@, required@), ("type"@, JView::Str("object"@))]);
    }
    let schema = jobj(schema_entries);
    schema
}

/// Tools that schedule, change and cancel intents.
pub fn tools() -> (r: Vec<Tool>)
    ensures
        tool_names(r@) == seq!["create_intent"@, "update_intent"@, "delete_intent"@],
        r@[0].description@ == "Schedule something for later. A reminder, follow-up, or triggered action."@,
        r@[0].parameters@ == create_intent_schema(),
        r@[1].description@ == "Modify an existing intent. Atomic update \u{2014} safer than delete + create if the program crashes between operations."@,
        r@[1].parameters@ == update_intent_schema(),
        r@[2].description@ == "Cancel a scheduled or triggered intent."@,
        r@[2].parameters@ == delete_intent_schema(),
{
    let r = vec![
        Tool {
            name: owned("create_intent"),
            description: owned("Schedule something for later. A reminder, follow-up, or triggered action."),
            parameters: create_intent_parameters(),
        },
        Tool {
            name: owned("update_intent"),
            description: owned("Modify an existing intent. Atomic update \u{2014} safer than delete + create if the program crashes between operations."),
            parameters: update_intent_parameters(),
        },
        Tool {
            name: owned("delete_intent"),
            description: owned("Cancel a scheduled or triggered intent."),
            parameters: delete_intent_parameters(),
        },
    ];
    r
}

} // verus!
