//! Memory tools.
use vstd::prelude::*;
use crate::json::{Json, JView, JsonNumber, jarr, jint, jkv, jmicros, jobj, jstr, jview};
use crate::text::owned;
use crate::tools::{Tool, tool_names};

verus! {

/// The schema of `recall_memories`'s arguments.
pub open spec fn recall_memories_schema() -> JView {
    JView::Object(
        seq![
            ("properties"@, JView::Object(
                seq![
                    ("global"@, JView::Object(
                        seq![
                            ("description"@, JView::Str("Deprecated alias for scope=global."@)),
                            ("type"@, JView::Str("boolean"@)),
                        ],
                    )),
                    ("identity"@, JView::Object(
                        seq![
                            ("description"@, JView::Str("Identity ID to restrict account-specific recall to."@)),
                            ("type"@, JView::Str("string"@)),
                        ],
                    )),
                    ("include_sensitive"@, JView::Object(
                        seq![
                            ("default"@, JView::Bool(false)),
                            ("description"@, JView::Str("Include sensitive/secret memories. Use only when directly relevant and authority allows it."@)),
                            ("type"@, JView::Str("boolean"@)),
                        ],
                    )),
                    ("include_superseded"@, JView::Object(
                        seq![
                            ("default"@, JView::Bool(false)),
                            ("description"@, JView::Str("Include superseded or outdated memories for audit/history. Defaults to false so stale facts do not appear in normal recall."@)),
                            ("type"@, JView::Str("boolean"@)),
                        ],
                    )),
                    ("kind"@, JView::Object(
                        seq![
                            ("description"@, JView::Str("Optional memory kind filter"@)),
                            ("enum"@, JView::Array(seq![JView::Str("episodic"@), JView::Str("semantic"@), JView::Str("procedural"@)])),
                            ("type"@, JView::Str("string"@)),
                        ],
                    )),
                    ("limit"@, JView::Object(
                        seq![
                            ("default"@, JView::Number(JsonNumber { micros: 3000000, integral: true })),
                            ("description"@, JView::Str("Max results (default 3)"@)),
                            ("type"@, JView::Str("integer"@)),
                        ],
                    )),
                    ("max_sensitivity"@, JView::Object(
                        seq![
                            ("description"@, JView::Str("Maximum sensitivity to include, 0.0 to 1.0. Defaults to conservative recall."@)),
                            ("type"@, JView::Str("number"@)),
                        ],
                    )),
                    ("offset"@, JView::Object(
                        seq![
                            ("default"@, JView::Number(JsonNumber { micros: 0, integral: true })),
                            ("description"@, JView::Str("Skip this many results. Use to paginate: first call with offset 0, then offset 3 for more."@)),
                            ("type"@, JView::Str("integer"@)),
                        ],
                    )),
                    ("person"@, JView::Object(
                        seq![
                            ("description"@, JView::Str("Person ID to restrict recall to for verified person-level memories."@)),
                            ("type"@, JView::Str("string"@)),
                        ],
                    )),
                    ("profile"@, JView::Object(
                        seq![
                            ("description"@, JView::Str("Profile ID to restrict recall to. Defaults to the current speaker profile when available."@)),
                            ("type"@, JView::Str("string"@)),
                        ],
                    )),
                    ("query"@, JView::Object(
                        seq![
                            ("description"@, JView::Str("What to search for"@)),
                            ("type"@, JView::Str("string"@)),
                        ],
                    )),
                    ("scope"@, JView::Object(
                        seq![
                            ("description"@, JView::Str("Recall scope. Defaults to current profile. Use global only when intentionally searching across profiles."@)),
                            ("enum"@, JView::Array(seq![JView::Str("current"@), JView::Str("global"@)])),
                            ("type"@, JView::Str("string"@)),
                        ],
                    )),
                ],
            )),
            ("required"@, JView::Array(seq![JView::Str("query"@)])),
            ("type"@, JView::Str("object"@)),
        ],
    )
}

fn recall_memories_parameters() -> (j: Json)
    ensures
        j@ == recall_memories_schema(),
{
    let global_entries = vec![jkv("description", jstr("Deprecated alias for scope=global.")), jkv("type", jstr("boolean"))];
    proof {
        assert(global_entries@.map_values(|e: (String, Json)| (e.0@, jview(e.1))) =~= seq![("description"@, JView::Str("Deprecated alias for scope=global."@)), ("type"@, JView::Str("boolean"@))]);
    }
    let global = jobj(global_entries);
    let identity_entries = vec![jkv("description", jstr("Identity ID to restrict account-specific recall to.")), jkv("type", jstr("string"))];
    proof {
        assert(identity_entries@.map_values(|e: (String, Json)| (e.0@, jview(e.1))) =~= seq![("description"@, JView::Str("Identity ID to restrict account-specific recall to."@)), ("type"@, JView::Str("string"@))]);
    }
    let identity = jobj(identity_entries);
    let include_sensitive_entries = vec![jkv("default", Json::Bool(false)), jkv("description", jstr("Include sensitive/secret memories. Use only when directly relevant and authority allows it.")), jkv("type", jstr("boolean"))];
    proof {
        assert(include_sensitive_entries@.map_values(|e: (String, Json)| (e.0@, jview(e.1))) =~= seq![("default"@, JView::Bool(false)), ("description"@, JView::Str("Include sensitive/secret memories. Use only when directly relevant and authority allows it."@)), ("type"@, JView::Str("boolean"@))]);
    }
    let include_sensitive = jobj(include_sensitive_entries);
    let include_superseded_entries = vec![jkv("default", Json::Bool(false)), jkv("description", jstr("Include superseded or outdated memories for audit/history. Defaults to false so stale facts do not appear in normal recall.")), jkv("type", jstr("boolean"))];
    proof {
        assert(include_superseded_entries@.map_values(|e: (String, Json)| (e.0@, jview(e.1))) =~= seq![("default"@, JView::Bool(false)), ("description"@, JView::Str("Include superseded or outdated memories for audit/history. Defaults to false so stale facts do not appear in normal recall."@)), ("type"@, JView::Str("boolean"@))]);
    }
    let include_superseded = jobj(include_superseded_entries);
    let enum__items = vec![jstr("episodic"), jstr("semantic"), jstr("procedural")];
    proof {
        assert(enum__items@.map_values(|x: Json| jview(x)) =~= seq![JView::Str("episodic"@), JView::Str("semantic"@), JView::Str("procedural"@)]);
    }
    let enum_ = jarr(enum__items);
    let kind_entries = vec![jkv("description", jstr("Optional memory kind filter")), jkv("enum", enum_), jkv("type", jstr("string"))];
    proof {
        assert(kind_entries@.map_values(|e: (String, Json)| (e.0@, jview(e.1))) =~= seq![("description"@, JView::Str("Optional memory kind filter"@)), ("enum"@, enum_@), ("type"@, JView::Str("string"@))]);
    }
    let kind = jobj(kind_entries);
    let limit_entries = vec![jkv("default", jint(3)), jkv("description", jstr("Max results (default 3)")), jkv("type", jstr("integer"))];
    proof {
        assert(limit_entries@.map_values(|e: (String, Json)| (e.0@, jview(e.1))) =~= seq![("default"@, JView::Number(JsonNumber { micros: 3000000, integral: true })), ("description"@, JView::Str("Max results (default 3)"@)), ("type"@, JView::Str("integer"@))]);
    }
    let limit = jobj(limit_entries);
    let max_sensitivity_entries = vec![jkv("description", jstr("Maximum sensitivity to include, 0.0 to 1.0. Defaults to conservative recall.")), jkv("type", jstr("number"))];
    proof {
        assert(max_sensitivity_entries@.map_values(|e: (String, Json)| (e.0@, jview(e.1))) =~= seq![("description"@, JView::Str("Maximum sensitivity to include, 0.0 to 1.0. Defaults to conservative recall."@)), ("type"@, JView::Str("number"@))]);
    }
    let max_sensitivity = jobj(max_sensitivity_entries);
    let offset_entries = vec![jkv("default", jint(0)), jkv("description", jstr("Skip this many results. Use to paginate: first call with offset 0, then offset 3 for more.")), jkv("type", jstr("integer"))];
    proof {
        assert(offset_entries@.map_values(|e: (String, Json)| (e.0@, jview(e.1))) =~= seq![("default"@, JView::Number(JsonNumber { micros: 0, integral: true })), ("description"@, JView::Str("Skip this many results. Use to paginate: first call with offset 0, then offset 3 for more."@)), ("type"@, JView::Str("integer"@))]);
    }
    let offset = jobj(offset_entries);
    let person_entries = vec![jkv("description", jstr("Person ID to restrict recall to for verified person-level memories.")), jkv("type", jstr("string"))];
    proof {
        assert(person_entries@.map_values(|e: (String, Json)| (e.0@, jview(e.1))) =~= seq![("description"@, JView::Str("Person ID to restrict recall to for verified person-level memories."@)), ("type"@, JView::Str("string"@))]);
    }
    let person = jobj(person_entries);
    let profile_entries = vec![jkv("description", jstr("Profile ID to restrict recall to. Defaults to the current speaker profile when available.")), jkv("type", jstr("string"))];
    proof {
        assert(profile_entries@.map_values(|e: (String, Json)| (e.0@, jview(e.1))) =~= seq![("description"@, JView::Str("Profile ID to restrict recall to. Defaults to the current speaker profile when available."@)), ("type"@, JView::Str("string"@))]);
    }
    let profile = jobj(profile_entries);
    let query_entries = vec![jkv("description", jstr("What to search for")), jkv("type", jstr("string"))];
    proof {
        assert(query_entries@.map_values(|e: (String, Json)| (e.0@, jview(e.1))) =~= seq![("description"@, JView::Str("What to search for"@)), ("type"@, JView::Str("string"@))]);
    }
    let query = jobj(query_entries);
    let enum__2_items = vec![jstr("current"), jstr("global")];
    proof {
        assert(enum__2_items@.map_values(|x: Json| jview(x)) =~= seq![JView::Str("current"@), JView::Str("global"@)]);
    }
    let enum__2 = jarr(enum__2_items);
    let scope_entries = vec![jkv("description", jstr("Recall scope. Defaults to current profile. Use global only when intentionally searching across profiles.")), jkv("enum", enum__2), jkv("type", jstr("string"))];
    proof {
        assert(scope_entries@.map_values(|e: (String, Json)| (e.0@, jview(e.1))) =~= seq![("description"@, JView::Str("Recall scope. Defaults to current profile. Use global only when intentionally searching across profiles."@)), ("enum"@, enum__2@), ("type"@, JView::Str("string"@))]);
    }
    let scope = jobj(scope_entries);
    let properties_entries = vec![jkv("global", global), jkv("identity", identity), jkv("include_sensitive", include_sensitive), jkv("include_superseded", include_superseded), jkv("kind", kind), jkv("limit", limit), jkv("max_sensitivity", max_sensitivity), jkv("offset", offset), jkv("person", person), jkv("profile", profile), jkv("query", query), jkv("scope", scope)];
    proof {
        assert(properties_entries@.map_values(|e: (String, Json)| (e.0@, jview(e.1))) =~= seq![("global"@, global@), ("identity"@, identity@), ("include_sensitive"@, include_sensitive@), ("include_superseded"@, include_superseded@), ("kind"@, kind@), ("limit"@, limit@), ("max_sensitivity"@, max_sensitivity@), ("offset"@, offset@), ("person"@, person@), ("profile"@, profile@), ("query"@, query@), ("scope"@, scope@)]);
    }
    let properties = jobj(properties_entries);
    let required_items = vec![jstr("query")];
    proof {
        assert(required_items@.map_values(|x: Json| jview(x)) =~= seq![JView::Str("query"@)]);
    }
    let required = jarr(required_items);
    let schema_entries = vec![jkv("properties", properties), jkv("required", required), jkv("type", jstr("object"))];
    proof {
        assert(schema_entries@.map_values(|e: (String, Json)| (e.0@, jview(e.1))) =~= seq![("properties"@, properties@), ("required"@, required@), ("type"@, JView::Str("object"@))]);
    }
    let schema = jobj(schema_entries);
    schema
}

/// The schema of `form_memory`'s arguments.
pub open spec fn form_memory_schema() -> JView {
    JView::Object(
        seq![
            ("properties"@, JView::Object(
                seq![
                    ("confidence"@, JView::Object(
                        seq![
                            ("default"@, JView::Number(JsonNumber { micros: 1000000, integral: false })),
                            ("description"@, JView::Str("0.0 to 1.0 confidence in this memory based on available evidence"@)),
                            ("type"@, JView::Str("number"@)),
                        ],
                    )),
                    ("content"@, JView::Object(
                        seq![
                            ("description"@, JView::Str("What to remember. Names are display labels, not identity keys."@)),
                            ("type"@, JView::Str("string"@)),
                        ],
                    )),
                    ("contradiction_group"@, JView::Object(
                        seq![
                            ("description"@, JView::Str("Stable group key for mutually contradictory memories."@)),
                            ("type"@, JView::Str("string"@)),
                        ],
                    )),
                    ("dedupe_key"@, JView::Object(
                        seq![
                            ("description"@, JView::Str("Stable key for upserting/reinforcing an existing equivalent memory instead of duplicating it."@)),
                            ("type"@, JView::Str("string"@)),
                        ],
                    )),
                    ("emotional_valence"@, JView::Object(
                        seq![
                            ("default"@, JView::Number(JsonNumber { micros: 0, integral: false })),
                            ("description"@, JView::Str("-1.0 to 1.0, emotional tone of the memory"@)),
                            ("type"@, JView::Str("number"@)),
                        ],
                    )),
                    ("evidence"@, JView::Object(
                        seq![
                            ("description"@, JView::Str("Compact structured evidence object such as source spans, quotes, or review rationale."@)),
                            ("type"@, JView::Str("object"@)),
                        ],
                    )),
                    ("evidence_message_ids"@, JView::Object(
                        seq![
                            ("description"@, JView::Str("Message ids that support this memory."@)),
                            ("items"@, JView::Object(
                                seq![
                                    ("type"@, JView::Str("string"@)),
                                ],
                            )),
                            ("type"@, JView::Str("array"@)),
                        ],
                    )),
                    ("evidence_quote"@, JView::Object(
                        seq![
                            ("description"@, JView::Str("Short quote or paraphrase from the supporting message."@)),
                            ("type"@, JView::Str("string"@)),
                        ],
                    )),
                    ("expires_at"@, JView::Object(
                        seq![
                            ("description"@, JView::Str("Unix timestamp when this memory should expire, for temporary facts."@)),
                            ("type"@, JView::Str("integer"@)),
                        ],
                    )),
                    ("importance"@, JView::Object(
                        seq![
                            ("default"@, JView::Number(JsonNumber { micros: 500000, integral: false })),
                            ("description"@, JView::Str("0.0 to 1.0, how important this is"@)),
                            ("type"@, JView::Str("number"@)),
                        ],
                    )),
                    ("kind"@, JView::Object(
                        seq![
                            ("description"@, JView::Str("episodic = what happened, semantic = facts/knowledge, procedural = how to do things"@)),
                            ("enum"@, JView::Array(seq![JView::Str("episodic"@), JView::Str("semantic"@), JView::Str("procedural"@)])),
                            ("type"@, JView::Str("string"@)),
                        ],
                    )),
                    ("last_confirmed_at"@, JView::Object(
                        seq![
                            ("description"@, JView::Str("Unix timestamp when this memory was last confirmed."@)),
                            ("type"@, JView::Str("integer"@)),
                        ],
                    )),
                    ("memory_type"@, JView::Object(
                        seq![
                            ("description"@, JView::Str("Structured memory ontology. Use hypothesis for uncertain inference, correction for updated facts, and open_loop/commitment for follow-up obligations."@)),
                            ("enum"@, JView::Array(seq![JView::Str("fact"@), JView::Str("preference"@), JView::Str("style_pattern"@), JView::Str("boundary"@), JView::Str("commitment"@), JView::Str("open_loop"@), JView::Str("event"@), JView::Str("procedure"@), JView::Str("relationship_fact"@), JView::Str("identity_claim"@), JView::Str("hypothesis"@), JView::Str("correction"@), JView::Str("emotional_state"@)])),
                            ("type"@, JView::Str("string"@)),
                        ],
                    )),
                    ("next_review_at"@, JView::Object(
                        seq![
                            ("description"@, JView::Str("Unix timestamp when this memory should be reviewed again."@)),
                            ("type"@, JView::Str("integer"@)),
                        ],
                    )),
                    ("privacy_category"@, JView::Object(
                        seq![
                            ("description"@, JView::Str("Privacy class for recall and prompt inclusion policy."@)),
                            ("enum"@, JView::Array(seq![JView::Str("public"@), JView::Str("personal"@), JView::Str("sensitive"@), JView::Str("secret"@)])),
                            ("type"@, JView::Str("string"@)),
                        ],
                    )),
                    ("sensitivity"@, JView::Object(
                        seq![
                            ("default"@, JView::Number(JsonNumber { micros: 0, integral: false })),
                            ("description"@, JView::Str("0.0 to 1.0, how private or sensitive this memory is"@)),
                            ("type"@, JView::Str("number"@)),
                        ],
                    )),
                    ("sensitivity_category"@, JView::Object(
                        seq![
                            ("description"@, JView::Str("Optional category for sensitive material, e.g. health, finance, identity, credentials, relationship, location."@)),
                            ("type"@, JView::Str("string"@)),
                        ],
                    )),
                    ("source_spans"@, JView::Object(
                        seq![
                            ("description"@, JView::Str("Precise quote spans supporting this memory, persisted inside evidence.source_spans."@)),
                            ("items"@, JView::Object(
                                seq![
                                    ("properties"@, JView::Object(
                                        seq![
                                            ("end_char"@, JView::Object(
                                                seq![
                                                    ("type"@, JView::Str("integer"@)),
                                                ],
                                            )),
                                            ("message_id"@, JView::Object(
                                                seq![
                                                    ("type"@, JView::Str("string"@)),
                                                ],
                                            )),
                                            ("quote"@, JView::Object(
                                                seq![
                                                    ("type"@, JView::Str("string"@)),
                                                ],
                                            )),
                                            ("start_char"@, JView::Object(
                                                seq![
                                                    ("type"@, JView::Str("integer"@)),
                                                ],
                                            )),
                                        ],
                                    )),
                                    ("required"@, JView::Array(seq![JView::Str("message_id"@)])),
                                    ("type"@, JView::Str("object"@)),
                                ],
                            )),
                            ("type"@, JView::Str("array"@)),
                        ],
                    )),
                    ("stability"@, JView::Object(
                        seq![
                            ("description"@, JView::Str("Expected durability of the memory."@)),
                            ("enum"@, JView::Array(seq![JView::Str("transient"@), JView::Str("seasonal"@), JView::Str("stable"@)])),
                            ("type"@, JView::Str("string"@)),
                        ],
                    )),
                    ("subject_actor"@, JView::Object(
                        seq![
                            ("description"@, JView::Str("Chosen-person-only. Store this as an actor/self memory for Pamagotchi's own identity or core self facts."@)),
                            ("type"@, JView::Str("boolean"@)),
                        ],
                    )),
                    ("subject_identity_ids"@, JView::Object(
                        seq![
                            ("description"@, JView::Str("Identity IDs this memory is about when the fact is account-specific."@)),
                            ("items"@, JView::Object(
                                seq![
                                    ("type"@, JView::Str("string"@)),
                                ],
                            )),
                            ("type"@, JView::Str("array"@)),
                        ],
                    )),
                    ("subject_profile_ids"@, JView::Object(
                        seq![
                            ("description"@, JView::Str("Profile IDs this memory is about. Defaults to the current speaker profile."@)),
                            ("items"@, JView::Object(
                                seq![
                                    ("type"@, JView::Str("string"@)),
                                ],
                            )),
                            ("type"@, JView::Str("array"@)),
                        ],
                    )),
                    ("supersedes"@, JView::Object(
                        seq![
                            ("description"@, JView::Str("Memory ID this new memory corrects or replaces. The old memory will be linked back to the new memory."@)),
                            ("type"@, JView::Str("string"@)),
                        ],
                    )),
                    ("tags"@, JView::Object(
                        seq![
                            ("description"@, JView::Str("Short structured tags such as preference, boundary, correction, commitment, style_pattern, identity_claim, or open_loop."@)),
                            ("items"@, JView::Object(
                                seq![
                                    ("type"@, JView::Str("string"@)),
                                ],
                            )),
                            ("type"@, JView::Str("array"@)),
                        ],
                    )),
                    ("truth_status"@, JView::Object(
                        seq![
                            ("description"@, JView::Str("How the content is known."@)),
                            ("enum"@, JView::Array(seq![JView::Str("observed"@), JView::Str("stated"@), JView::Str("inferred"@), JView::Str("confirmed"@), JView::Str("denied"@), JView::Str("outdated"@)])),
                            ("type"@, JView::Str("string"@)),
                        ],
                    )),
                    ("visibility_scope"@, JView::Object(
                        seq![
                            ("description"@, JView::Str("Default boundary for using this memory."@)),
                            ("enum"@, JView::Array(seq![JView::Str("profile"@), JView::Str("person"@), JView::Str("chosen_person_only"@), JView::Str("global"@)])),
                            ("type"@, JView::Str("string"@)),
                        ],
                    )),
                ],
            )),
            ("required"@, JView::Array(seq![JView::Str("content"@), JView::Str("kind"@)])),
            ("type"@, JView::Str("object"@)),
        ],
    )
}

fn form_memory_parameters() -> (j: Json)
    ensures
        j@ == form_memory_schema(),
{
    let confidence_entries = vec![jkv("default", jmicros(1000000)), jkv("description", jstr("0.0 to 1.0 confidence in this memory based on available evidence")), jkv("type", jstr("number"))];
    proof {
        assert(confidence_entries@.map_values(|e: (String, Json)| (e.0@, jview(e.1))) =~= seq![("default"@, JView::Number(JsonNumber { micros: 1000000, integral: false })), ("description"@, JView::Str("0.0 to 1.0 confidence in this memory based on available evidence"@)), ("type"@, JView::Str("number"@))]);
    }
    let confidence = jobj(confidence_entries);
    let content_entries = vec![jkv("description", jstr("What to remember. Names are display labels, not identity keys.")), jkv("type", jstr("string"))];
    proof {
        assert(content_entries@.map_values(|e: (String, Json)| (e.0@, jview(e.1))) =~= seq![("description"@, JView::Str("What to remember. Names are display labels, not identity keys."@)), ("type"@, JView::Str("string"@))]);
    }
    let content = jobj(content_entries);
    let contradiction_group_entries = vec![jkv("description", jstr("Stable group key for mutually contradictory memories.")), jkv("type", jstr("string"))];
    proof {
        assert(contradiction_group_entries@.map_values(|e: (String, Json)| (e.0@, jview(e.1))) =~= seq![("description"@, JView::Str("Stable group key for mutually contradictory memories."@)), ("type"@, JView::Str("string"@))]);
    }
    let contradiction_group = jobj(contradiction_group_entries);
    let dedupe_key_entries = vec![jkv("description", jstr("Stable key for upserting/reinforcing an existing equivalent memory instead of duplicating it.")), jkv("type", jstr("string"))];
    proof {
        assert(dedupe_key_entries@.map_values(|e: (String, Json)| (e.0@, jview(e.1))) =~= seq![("description"@, JView::Str("Stable key for upserting/reinforcing an existing equivalent memory instead of duplicating it."@)), ("type"@, JView::Str("string"@))]);
    }
    let dedupe_key = jobj(dedupe_key_entries);
    let emotional_valence_entries = vec![jkv("default", jmicros(0)), jkv("description", jstr("-1.0 to 1.0, emotional tone of the memory")), jkv("type", jstr("number"))];
    proof {
        assert(emotional_valence_entries@.map_values(|e: (String, Json)| (e.0@, jview(e.1))) =~= seq![("default"@, JView::Number(JsonNumber { micros: 0, integral: false })), ("description"@, JView::Str("-1.0 to 1.0, emotional tone of the memory"@)), ("type"@, JView::Str("number"@))]);
    }
    let emotional_valence = jobj(emotional_valence_entries);
    let evidence_entries = vec![jkv("description", jstr("Compact structured evidence object such as source spans, quotes, or review rationale.")), jkv("type", jstr("object"))];
    proof {
        assert(evidence_entries@.map_values(|e: (String, Json)| (e.0@, jview(e.1))) =~= seq![("description"@, JView::Str("Compact structured evidence object such as source spans, quotes, or review rationale."@)), ("type"@, JView::Str("object"@))]);
    }
    let evidence = jobj(evidence_entries);
    let items_entries = vec![jkv("type", jstr("string"))];
    proof {
        assert(items_entries@.map_values(|e: (String, Json)| (e.0@, jview(e.1))) =~= seq![("type"@, JView::Str("string"@))]);
    }
    let items = jobj(items_entries);
    let evidence_message_ids_entries = vec![jkv("description", jstr("Message ids that support this memory.")), jkv("items", items), jkv("type", jstr("array"))];
    proof {
        assert(evidence_message_ids_entries@.map_values(|e: (String, Json)| (e.0@, jview(e.1))) =~= seq![("description"@, JView::Str("Message ids that support this memory."@)), ("items"@, items@), ("type"@, JView::Str("array"@))]);
    }
    let evidence_message_ids = jobj(evidence_message_ids_entries);
    let evidence_quote_entries = vec![jkv("description", jstr("Short quote or paraphrase from the supporting message.")), jkv("type", jstr("string"))];
    proof {
        assert(evidence_quote_entries@.map_values(|e: (String, Json)| (e.0@, jview(e.1))) =~= seq![("description"@, JView::Str("Short quote or paraphrase from the supporting message."@)), ("type"@, JView::Str("string"@))]);
    }
    let evidence_quote = jobj(evidence_quote_entries);
    let expires_at_entries = vec![jkv("description", jstr("Unix timestamp when this memory should expire, for temporary facts.")), jkv("type", jstr("integer"))];
    proof {
        assert(expires_at_entries@.map_values(|e: (String, Json)| (e.0@, jview(e.1))) =~= seq![("description"@, JView::Str("Unix timestamp when this memory should expire, for temporary facts."@)), ("type"@, JView::Str("integer"@))]);
    }
    let expires_at = jobj(expires_at_entries);
    let importance_entries = vec![jkv("default", jmicros(500000)), jkv("description", jstr("0.0 to 1.0, how important this is")), jkv("type", jstr("number"))];
    proof {
        assert(importance_entries@.map_values(|e: (String, Json)| (e.0@, jview(e.1))) =~= seq![("default"@, JView::Number(JsonNumber { micros: 500000, integral: false })), ("description"@, JView::Str("0.0 to 1.0, how important this is"@)), ("type"@, JView::Str("number"@))]);
    }
    let importance = jobj(importance_entries);
    let enum__items = vec![jstr("episodic"), jstr("semantic"), jstr("procedural")];
    proof {
        assert(enum__items@.map_values(|x: Json| jview(x)) =~= seq![JView::Str("episodic"@), JView::Str("semantic"@), JView::Str("procedural"@)]);
    }
    let enum_ = jarr(enum__items);
    let kind_entries = vec![jkv("description", jstr("episodic = what happened, semantic = facts/knowledge, procedural = how to do things")), jkv("enum", enum_), jkv("type", jstr("string"))];
    proof {
        assert(kind_entries@.map_values(|e: (String, Json)| (e.0@, jview(e.1))) =~= seq![("description"@, JView::Str("episodic = what happened, semantic = facts/knowledge, procedural = how to do things"@)), ("enum"@, enum_@), ("type"@, JView::Str("string"@))]);
    }
    let kind = jobj(kind_entries);
    let last_confirmed_at_entries = vec![jkv("description", jstr("Unix timestamp when this memory was last confirmed.")), jkv("type", jstr("integer"))];
    proof {
        assert(last_confirmed_at_entries@.map_values(|e: (String, Json)| (e.0@, jview(e.1))) =~= seq![("description"@, JView::Str("Unix timestamp when this memory was last confirmed."@)), ("type"@, JView::Str("integer"@))]);
    }
    let last_confirmed_at = jobj(last_confirmed_at_entries);
    let enum__2_items = vec![jstr("fact"), jstr("preference"), jstr("style_pattern"), jstr("boundary"), jstr("commitment"), jstr("open_loop"), jstr("event"), jstr("procedure"), jstr("relationship_fact"), jstr("identity_claim"), jstr("hypothesis"), jstr("correction"), jstr("emotional_state")];
    proof {
        assert(enum__2_items@.map_values(|x: Json| jview(x)) =~= seq![JView::Str("fact"@), JView::Str("preference"@), JView::Str("style_pattern"@), JView::Str("boundary"@), JView::Str("commitment"@), JView::Str("open_loop"@), JView::Str("event"@), JView::Str("procedure"@), JView::Str("relationship_fact"@), JView::Str("identity_claim"@), JView::Str("hypothesis"@), JView::Str("correction"@), JView::Str("emotional_state"@)]);
    }
    let enum__2 = jarr(enum__2_items);
    let memory_type_entries = vec![jkv("description", jstr("Structured memory ontology. Use hypothesis for uncertain inference, correction for updated facts, and open_loop/commitment for follow-up obligations.")), jkv("enum", enum__2), jkv("type", jstr("string"))];
    proof {
        assert(memory_type_entries@.map_values(|e: (String, Json)| (e.0@, jview(e.1))) =~= seq![("description"@, JView::Str("Structured memory ontology. Use hypothesis for uncertain inference, correction for updated facts, and open_loop/commitment for follow-up obligations."@)), ("enum"@, enum__2@), ("type"@, JView::Str("string"@))]);
    }
    let memory_type = jobj(memory_type_entries);
    let next_review_at_entries = vec![jkv("description", jstr("Unix timestamp when this memory should be reviewed again.")), jkv("type", jstr("integer"))];
    proof {
        assert(next_review_at_entries@.map_values(|e: (String, Json)| (e.0@, jview(e.1))) =~= seq![("description"@, JView::Str("Unix timestamp when this memory should be reviewed again."@)), ("type"@, JView::Str("integer"@))]);
    }
    let next_review_at = jobj(next_review_at_entries);
    let enum__3_items = vec![jstr("public"), jstr("personal"), jstr("sensitive"), jstr("secret")];
    proof {
        assert(enum__3_items@.map_values(|x: Json| jview(x)) =~= seq![JView::Str("public"@), JView::Str("personal"@), JView::Str("sensitive"@), JView::Str("secret"@)]);
    }
    let enum__3 = jarr(enum__3_items);
    let privacy_category_entries = vec![jkv("description", jstr("Privacy class for recall and prompt inclusion policy.")), jkv("enum", enum__3), jkv("type", jstr("string"))];
    proof {
        assert(privacy_category_entries@.map_values(|e: (String, Json)| (e.0@, jview(e.1))) =~= seq![("description"@, JView::Str("Privacy class for recall and prompt inclusion policy."@)), ("enum"@, enum__3@), ("type"@, JView::Str("string"@))]);
    }
    let privacy_category = jobj(privacy_category_entries);
    let sensitivity_entries = vec![jkv("default", jmicros(0)), jkv("description", jstr("0.0 to 1.0, how private or sensitive this memory is")), jkv("type", jstr("number"))];
    proof {
        assert(sensitivity_entries@.map_values(|e: (String, Json)| (e.0@, jview(e.1))) =~= seq![("default"@, JView::Number(JsonNumber { micros: 0, integral: false })), ("description"@, JView::Str("0.0 to 1.0, how private or sensitive this memory is"@)), ("type"@, JView::Str("number"@))]);
    }
    let sensitivity = jobj(sensitivity_entries);
    let sensitivity_category_entries = vec![jkv("description", jstr("Optional category for sensitive material, e.g. health, finance, identity, credentials, relationship, location.")), jkv("type", jstr("string"))];
    proof {
        assert(sensitivity_category_entries@.map_values(|e: (String, Json)| (e.0@, jview(e.1))) =~= seq![("description"@, JView::Str("Optional category for sensitive material, e.g. health, finance, identity, credentials, relationship, location."@)), ("type"@, JView::Str("string"@))]);
    }
    let sensitivity_category = jobj(sensitivity_category_entries);
    let end_char_entries = vec![jkv("type", jstr("integer"))];
    proof {
        assert(end_char_entries@.map_values(|e: (String, Json)| (e.0@, jview(e.1))) =~= seq![("type"@, JView::Str("integer"@))]);
    }
    let end_char = jobj(end_char_entries);
    let message_id_entries = vec![jkv("type", jstr("string"))];
    proof {
        assert(message_id_entries@.map_values(|e: (String, Json)| (e.0@, jview(e.1))) =~= seq![("type"@, JView::Str("string"@))]);
    }
    let message_id = jobj(message_id_entries);
    let quote_entries = vec![jkv("type", jstr("string"))];
    proof {
        assert(quote_entries@.map_values(|e: (String, Json)| (e.0@, jview(e.1))) =~= seq![("type"@, JView::Str("string"@))]);
    }
    let quote = jobj(quote_entries);
    let start_char_entries = vec![jkv("type", jstr("integer"))];
    proof {
        assert(start_char_entries@.map_values(|e: (String, Json)| (e.0@, jview(e.1))) =~= seq![("type"@, JView::Str("integer"@))]);
    }
    let start_char = jobj(start_char_entries);
    let properties_entries = vec![jkv("end_char", end_char), jkv("message_id", message_id), jkv("quote", quote), jkv("start_char", start_char)];
    proof {
        assert(properties_entries@.map_values(|e: (String, Json)| (e.0@, jview(e.1))) =~= seq![("end_char"@, end_char@), ("message_id"@, message_id@), ("quote"@, quote@), ("start_char"@, start_char@)]);
    }
    let properties = jobj(properties_entries);
    let required_items = vec![jstr("message_id")];
    proof {
        assert(required_items@.map_values(|x: Json| jview(x)) =~= seq![JView::Str("message_id"@)]);
    }
    let required = jarr(required_items);
    let items_2_entries = vec![jkv("properties", properties), jkv("required", required), jkv("type", jstr("object"))];
    proof {
        assert(items_2_entries@.map_values(|e: (String, Json)| (e.0@, jview(e.1))) =~= seq![("properties"@, properties@), ("required"@, required@), ("type"@, JView::Str("object"@))]);
    }
    let items_2 = jobj(items_2_entries);
    let source_spans_entries = vec![jkv("description", jstr("Precise quote spans supporting this memory, persisted inside evidence.source_spans.")), jkv("items", items_2), jkv("type", jstr("array"))];
    proof {
        assert(source_spans_entries@.map_values(|e: (String, Json)| (e.0@, jview(e.1))) =~= seq![("description"@, JView::Str("Precise quote spans supporting this memory, persisted inside evidence.source_spans."@)), ("items"@, items_2@), ("type"@, JView::Str("array"@))]);
    }
    let source_spans = jobj(source_spans_entries);
    let enum__4_items = vec![jstr("transient"), jstr("seasonal"), jstr("stable")];
    proof {
        assert(enum__4_items@.map_values(|x: Json| jview(x)) =~= seq![JView::Str("transient"@), JView::Str("seasonal"@), JView::Str("stable"@)]);
    }
    let enum__4 = jarr(enum__4_items);
    let stability_entries = vec![jkv("description", jstr("Expected durability of the memory.")), jkv("enum", enum__4), jkv("type", jstr("string"))];
    proof {
        assert(stability_entries@.map_values(|e: (String, Json)| (e.0@, jview(e.1))) =~= seq![("description"@, JView::Str("Expected durability of the memory."@)), ("enum"@, enum__4@), ("type"@, JView::Str("string"@))]);
    }
    let stability = jobj(stability_entries);
    let subject_actor_entries = vec![jkv("description", jstr("Chosen-person-only. Store this as an actor/self memory for Pamagotchi's own identity or core self facts.")), jkv("type", jstr("boolean"))];
    proof {
        assert(subject_actor_entries@.map_values(|e: (String, Json)| (e.0@, jview(e.1))) =~= seq![("description"@, JView::Str("Chosen-person-only. Store this as an actor/self memory for Pamagotchi's own identity or core self facts."@)), ("type"@, JView::Str("boolean"@))]);
    }
    let subject_actor = jobj(subject_actor_entries);
    let items_3_entries = vec![jkv("type", jstr("string"))];
    proof {
        assert(items_3_entries@.map_values(|e: (String, Json)| (e.0@, jview(e.1))) =~= seq![("type"@, JView::Str("string"@))]);
    }
    let items_3 = jobj(items_3_entries);
    let subject_identity_ids_entries = vec![jkv("description", jstr("Identity IDs this memory is about when the fact is account-specific.")), jkv("items", items_3), jkv("type", jstr("array"))];
    proof {
        assert(subject_identity_ids_entries@.map_values(|e: (String, Json)| (e.0@, jview(e.1))) =~= seq![("description"@, JView::Str("Identity IDs this memory is about when the fact is account-specific."@)), ("items"@, items_3@), ("type"@, JView::Str("array"@))]);
    }
    let subject_identity_ids = jobj(subject_identity_ids_entries);
    let items_4_entries = vec![jkv("type", jstr("string"))];
    proof {
        assert(items_4_entries@.map_values(|e: (String, Json)| (e.0@, jview(e.1))) =~= seq![("type"@, JView::Str("string"@))]);
    }
    let items_4 = jobj(items_4_entries);
    let subject_profile_ids_entries = vec![jkv("description", jstr("Profile IDs this memory is about. Defaults to the current speaker profile.")), jkv("items", items_4), jkv("type", jstr("array"))];
    proof {
        assert(subject_profile_ids_entries@.map_values(|e: (String, Json)| (e.0@, jview(e.1))) =~= seq![("description"@, JView::Str("Profile IDs this memory is about. Defaults to the current speaker profile."@)), ("items"@, items_4@), ("type"@, JView::Str("array"@))]);
    }
    let subject_profile_ids = jobj(subject_profile_ids_entries);
    let supersedes_entries = vec![jkv("description", jstr("Memory ID this new memory corrects or replaces. The old memory will be linked back to the new memory.")), jkv("type", jstr("string"))];
    proof {
        assert(supersedes_entries@.map_values(|e: (String, Json)| (e.0@, jview(e.1))) =~= seq![("description"@, JView::Str("Memory ID this new memory corrects or replaces. The old memory will be linked back to the new memory."@)), ("type"@, JView::Str("string"@))]);
    }
    let supersedes = jobj(supersedes_entries);
    let items_5_entries = vec![jkv("type", jstr("string"))];
    proof {
        assert(items_5_entries@.map_values(|e: (String, Json)| (e.0@, jview(e.1))) =~= seq![("type"@, JView::Str("string"@))]);
    }
    let items_5 = jobj(items_5_entries);
    let tags_entries = vec![jkv("description", jstr("Short structured tags such as preference, boundary, correction, commitment, style_pattern, identity_claim, or open_loop.")), jkv("items", items_5), jkv("type", jstr("array"))];
    proof {
        assert(tags_entries@.map_values(|e: (String, Json)| (e.0@, jview(e.1))) =~= seq![("description"@, JView::Str("Short structured tags such as preference, boundary, correction, commitment, style_pattern, identity_claim, or open_loop."@)), ("items"@, items_5@), ("type"@, JView::Str("array"@))]);
    }
    let tags = jobj(tags_entries);
    let enum__5_items = vec![jstr("observed"), jstr("stated"), jstr("inferred"), jstr("confirmed"), jstr("denied"), jstr("outdated")];
    proof {
        assert(enum__5_items@.map_values(|x: Json| jview(x)) =~= seq![JView::Str("observed"@), JView::Str("stated"@), JView::Str("inferred"@), JView::Str("confirmed"@), JView::Str("denied"@), JView::Str("outdated"@)]);
    }
    let enum__5 = jarr(enum__5_items);
    let truth_status_entries = vec![jkv("description", jstr("How the content is known.")), jkv("enum", enum__5), jkv("type", jstr("string"))];
    proof {
        assert(truth_status_entries@.map_values(|e: (String, Json)| (e.0@, jview(e.1))) =~= seq![("description"@, JView::Str("How the content is known."@)), ("enum"@, enum__5@), ("type"@, JView::Str("string"@))]);
    }
    let truth_status = jobj(truth_status_entries);
    let enum__6_items = vec![jstr("profile"), jstr("person"), jstr("chosen_person_only"), jstr("global")];
    proof {
        assert(enum__6_items@.map_values(|x: Json| jview(x)) =~= seq![JView::Str("profile"@), JView::Str("person"@), JView::Str("chosen_person_only"@), JView::Str("global"@)]);
    }
    let enum__6 = jarr(enum__6_items);
    let visibility_scope_entries = vec![jkv("description", jstr("Default boundary for using this memory.")), jkv("enum", enum__6), jkv("type", jstr("string"))];
    proof {
        assert(visibility_scope_entries@.map_values(|e: (String, Json)| (e.0@, jview(e.1))) =~= seq![("description"@, JView::Str("Default boundary for using this memory."@)), ("enum"@, enum__6@), ("type"@, JView::Str("string"@))]);
    }
    let visibility_scope = jobj(visibility_scope_entries);
    let properties_2_entries = vec![jkv("confidence", confidence), jkv("content", content), jkv("contradiction_group", contradiction_group), jkv("dedupe_key", dedupe_key), jkv("emotional_valence", emotional_valence), jkv("evidence", evidence), jkv("evidence_message_ids", evidence_message_ids), jkv("evidence_quote", evidence_quote), jkv("expires_at", expires_at), jkv("importance", importance), jkv("kind", kind), jkv("last_confirmed_at", last_confirmed_at), jkv("memory_type", memory_type), jkv("next_review_at", next_review_at), jkv("privacy_category", privacy_category), jkv("sensitivity", sensitivity), jkv("sensitivity_category", sensitivity_category), jkv("source_spans", source_spans), jkv("stability", stability), jkv("subject_actor", subject_actor), jkv("subject_identity_ids", subject_identity_ids), jkv("subject_profile_ids", subject_profile_ids), jkv("supersedes", supersedes), jkv("tags", tags), jkv("truth_status", truth_status), jkv("visibility_scope", visibility_scope)];
    proof {
        assert(properties_2_entries@.map_values(|e: (String, Json)| (e.0@, jview(e.1))) =~= seq![("confidence"@, confidence@), ("content"@, content@), ("contradiction_group"@, contradiction_group@), ("dedupe_key"@, dedupe_key@), ("emotional_valence"@, emotional_valence@), ("evidence"@, evidence@), ("evidence_message_ids"@, evidence_message_ids@), ("evidence_quote"@, evidence_quote@), ("expires_at"@, expires_at@), ("importance"@, importance@), ("kind"@, kind@), ("last_confirmed_at"@, last_confirmed_at@), ("memory_type"@, memory_type@), ("next_review_at"@, next_review_at@), ("privacy_category"@, privacy_category@), ("sensitivity"@, sensitivity@), ("sensitivity_category"@, sensitivity_category@), ("source_spans"@, source_spans@), ("stability"@, stability@), ("subject_actor"@, subject_actor@), ("subject_identity_ids"@, subject_identity_ids@), ("subject_profile_ids"@, subject_profile_ids@), ("supersedes"@, supersedes@), ("tags"@, tags@), ("truth_status"@, truth_status@), ("visibility_scope"@, visibility_scope@)]);
    }
    let properties_2 = jobj(properties_2_entries);
    let required_2_items = vec![jstr("content"), jstr("kind")];
    proof {
        assert(required_2_items@.map_values(|x: Json| jview(x)) =~= seq![JView::Str("content"@), JView::Str("kind"@)]);
    }
    let required_2 = jarr(required_2_items);
    let schema_entries = vec![jkv("properties", properties_2), jkv("required", required_2), jkv("type", jstr("object"))];
    proof {
        assert(schema_entries@.map_values(|e: (String, Json)| (e.0@, jview(e.1))) =~= seq![("properties"@, properties_2@), ("required"@, required_2@), ("type"@, JView::Str("object"@))]);
    }
    let schema = jobj(schema_entries);
    schema
}

/// The schema of `inspect_memory`'s arguments.
pub open spec fn inspect_memory_schema() -> JView {
    JView::Object(
        seq![
            ("properties"@, JView::Object(
                seq![
                    ("memory_id"@, JView::Object(
                        seq![
                            ("description"@, JView::Str("ID of the memory to inspect"@)),
                            ("type"@, JView::Str("string"@)),
                        ],
                    )),
                ],
            )),
            ("required"@, JView::Array(seq![JView::Str("memory_id"@)])),
            ("type"@, JView::Str("object"@)),
        ],
    )
}

fn inspect_memory_parameters() -> (j: Json)
    ensures
        j@ == inspect_memory_schema(),
{
    let memory_id_entries = vec![jkv("description", jstr("ID of the memory to inspect")), jkv("type", jstr("string"))];
    proof {
        assert(memory_id_entries@.map_values(|e: (String, Json)| (e.0@, jview(e.1))) =~= seq![("description"@, JView::Str("ID of the memory to inspect"@)), ("type"@, JView::Str("string"@))]);
    }
    let memory_id = jobj(memory_id_entries);
    let properties_entries = vec![jkv("memory_id", memory_id)];
    proof {
        assert(properties_entries@.map_values(|e: (String, Json)| (e.0@, jview(e.1))) =~= seq![("memory_id"@, memory_id@)]);
    }
    let properties = jobj(properties_entries);
    let required_items = vec![jstr("memory_id")];
    proof {
        assert(required_items@.map_values(|x: Json| jview(x)) =~= seq![JView::Str("memory_id"@)]);
    }
    let required = jarr(required_items);
    let schema_entries = vec![jkv("properties", properties), jkv("required", required), jkv("type", jstr("object"))];
    proof {
        assert(schema_entries@.map_values(|e: (String, Json)| (e.0@, jview(e.1))) =~= seq![("properties"@, properties@), ("required"@, required@), ("type"@, JView::Str("object"@))]);
    }
    let schema = jobj(schema_entries);
    schema
}

/// The schema of `promote_profile_memory_to_person`'s arguments.
pub open spec fn promote_profile_memory_to_person_schema() -> JView {
    JView::Object(
        seq![
            ("properties"@, JView::Object(
                seq![
                    ("memory_id"@, JView::Object(
                        seq![
                            ("description"@, JView::Str("Memory ID to promote"@)),
                            ("type"@, JView::Str("string"@)),
                        ],
                    )),
                    ("person"@, JView::Object(
                        seq![
                            ("description"@, JView::Str("Person ID that should become a subject of this memory"@)),
                            ("type"@, JView::Str("string"@)),
                        ],
                    )),
                    ("reason"@, JView::Object(
                        seq![
                            ("description"@, JView::Str("Evidence or reason for promoting this memory"@)),
                            ("type"@, JView::Str("string"@)),
                        ],
                    )),
                ],
            )),
            ("required"@, JView::Array(seq![JView::Str("memory_id"@), JView::Str("person"@)])),
            ("type"@, JView::Str("object"@)),
        ],
    )
}

fn promote_profile_memory_to_person_parameters() -> (j: Json)
    ensures
        j@ == promote_profile_memory_to_person_schema(),
{
    let memory_id_entries = vec![jkv("description", jstr("Memory ID to promote")), jkv("type", jstr("string"))];
    proof {
        assert(memory_id_entries@.map_values(|e: (String, Json)| (e.0@, jview(e.1))) =~= seq![("description"@, JView::Str("Memory ID to promote"@)), ("type"@, JView::Str("string"@))]);
    }
    let memory_id = jobj(memory_id_entries);
    let person_entries = vec![jkv("description", jstr("Person ID that should become a subject of this memory")), jkv("type", jstr("string"))];
    proof {
        assert(person_entries@.map_values(|e: (String, Json)| (e.0@, jview(e.1))) =~= seq![("description"@, JView::Str("Person ID that should become a subject of this memory"@)), ("type"@, JView::Str("string"@))]);
    }
    let person = jobj(person_entries);
    let reason_entries = vec![jkv("description", jstr("Evidence or reason for promoting this memory")), jkv("type", jstr("string"))];
    proof {
        assert(reason_entries@.map_values(|e: (String, Json)| (e.0@, jview(e.1))) =~= seq![("description"@, JView::Str("Evidence or reason for promoting this memory"@)), ("type"@, JView::Str("string"@))]);
    }
    let reason = jobj(reason_entries);
    let properties_entries = vec![jkv("memory_id", memory_id), jkv("person", person), jkv("reason", reason)];
    proof {
        assert(properties_entries@.map_values(|e: (String, Json)| (e.0@, jview(e.1))) =~= seq![("memory_id"@, memory_id@), ("person"@, person@), ("reason"@, reason@)]);
    }
    let properties = jobj(properties_entries);
    let required_items = vec![jstr("memory_id"), jstr("person")];
    proof {
        assert(required_items@.map_values(|x: Json| jview(x)) =~= seq![JView::Str("memory_id"@), JView::Str("person"@)]);
    }
    let required = jarr(required_items);
    let schema_entries = vec![jkv("properties", properties), jkv("required", required), jkv("type", jstr("object"))];
    proof {
        assert(schema_entries@.map_values(|e: (String, Json)| (e.0@, jview(e.1))) =~= seq![("properties"@, properties@), ("required"@, required@), ("type"@, JView::Str("object"@))]);
    }
    let schema = jobj(schema_entries);
    schema
}

/// The schema of `demote_person_memory_to_profile`'s arguments.
pub open spec fn demote_person_memory_to_profile_schema() -> JView {
    JView::Object(
        seq![
            ("properties"@, JView::Object(
                seq![
                    ("memory_id"@, JView::Object(
                        seq![
                            ("description"@, JView::Str("Memory ID to demote"@)),
                            ("type"@, JView::Str("string"@)),
                        ],
                    )),
                    ("person"@, JView::Object(
                        seq![
                            ("description"@, JView::Str("Optional person ID to remove. If omitted, all person subjects are removed."@)),
                            ("type"@, JView::Str("string"@)),
                        ],
                    )),
                    ("profile"@, JView::Object(
                        seq![
                            ("description"@, JView::Str("Profile ID that should own this memory"@)),
                            ("type"@, JView::Str("string"@)),
                        ],
                    )),
                    ("reason"@, JView::Object(
                        seq![
                            ("description"@, JView::Str("Reason for demoting this memory"@)),
                            ("type"@, JView::Str("string"@)),
                        ],
                    )),
                ],
            )),
            ("required"@, JView::Array(seq![JView::Str("memory_id"@), JView::Str("profile"@)])),
            ("type"@, JView::Str("object"@)),
        ],
    )
}

fn demote_person_memory_to_profile_parameters() -> (j: Json)
    ensures
        j@ == demote_person_memory_to_profile_schema(),
{
    let memory_id_entries = vec![jkv("description", jstr("Memory ID to demote")), jkv("type", jstr("string"))];
    proof {
        assert(memory_id_entries@.map_values(|e: (String, Json)| (e.0@, jview(e.1))) =~= seq![("description"@, JView::Str("Memory ID to demote"@)), ("type"@, JView::Str("string"@))]);
    }
    let memory_id = jobj(memory_id_entries);
    let person_entries = vec![jkv("description", jstr("Optional person ID to remove. If omitted, all person subjects are removed.")), jkv("type", jstr("string"))];
    proof {
        assert(person_entries@.map_values(|e: (String, Json)| (e.0@, jview(e.1))) =~= seq![("description"@, JView::Str("Optional person ID to remove. If omitted, all person subjects are removed."@)), ("type"@, JView::Str("string"@))]);
    }
    let person = jobj(person_entries);
    let profile_entries = vec![jkv("description", jstr("Profile ID that should own this memory")), jkv("type", jstr("string"))];
    proof {
        assert(profile_entries@.map_values(|e: (String, Json)| (e.0@, jview(e.1))) =~= seq![("description"@, JView::Str("Profile ID that should own this memory"@)), ("type"@, JView::Str("string"@))]);
    }
    let profile = jobj(profile_entries);
    let reason_entries = vec![jkv("description", jstr("Reason for demoting this memory")), jkv("type", jstr("string"))];
    proof {
        assert(reason_entries@.map_values(|e: (String, Json)| (e.0@, jview(e.1))) =~= seq![("description"@, JView::Str("Reason for demoting this memory"@)), ("type"@, JView::Str("string"@))]);
    }
    let reason = jobj(reason_entries);
    let properties_entries = vec![jkv("memory_id", memory_id), jkv("person", person), jkv("profile", profile), jkv("reason", reason)];
    proof {
        assert(properties_entries@.map_values(|e: (String, Json)| (e.0@, jview(e.1))) =~= seq![("memory_id"@, memory_id@), ("person"@, person@), ("profile"@, profile@), ("reason"@, reason@)]);
    }
    let properties = jobj(properties_entries);
    let required_items = vec![jstr("memory_id"), jstr("profile")];
    proof {
        assert(required_items@.map_values(|x: Json| jview(x)) =~= seq![JView::Str("memory_id"@), JView::Str("profile"@)]);
    }
    let required = jarr(required_items);
    let schema_entries = vec![jkv("properties", properties), jkv("required", required), jkv("type", jstr("object"))];
    proof {
        assert(schema_entries@.map_values(|e: (String, Json)| (e.0@, jview(e.1))) =~= seq![("properties"@, properties@), ("required"@, required@), ("type"@, JView::Str("object"@))]);
    }
    let schema = jobj(schema_entries);
    schema
}

/// The schema of `forget_memory`'s arguments.
pub open spec fn forget_memory_schema() -> JView {
    JView::Object(
        seq![
            ("properties"@, JView::Object(
                seq![
                    ("memory_id"@, JView::Object(
                        seq![
                            ("description"@, JView::Str("ID of the memory to forget"@)),
                            ("type"@, JView::Str("string"@)),
                        ],
                    )),
                ],
            )),
            ("required"@, JView::Array(seq![JView::Str("memory_id"@)])),
            ("type"@, JView::Str("object"@)),
        ],
    )
}

fn forget_memory_parameters() -> (j: Json)
    ensures
        j@ == forget_memory_schema(),
{
    let memory_id_entries = vec![jkv("description", jstr("ID of the memory to forget")), jkv("type", jstr("string"))];
    proof {
        assert(memory_id_entries@.map_values(|e: (String, Json)| (e.0@, jview(e.1))) =~= seq![("description"@, JView::Str("ID of the memory to forget"@)), ("type"@, JView::Str("string"@))]);
    }
    let memory_id = jobj(memory_id_entries);
    let properties_entries = vec![jkv("memory_id", memory_id)];
    proof {
        assert(properties_entries@.map_values(|e: (String, Json)| (e.0@, jview(e.1))) =~= seq![("memory_id"@, memory_id@)]);
    }
    let properties = jobj(properties_entries);
    let required_items = vec![jstr("memory_id")];
    proof {
        assert(required_items@.map_values(|x: Json| jview(x)) =~= seq![JView::Str("memory_id"@)]);
    }
    let required = jarr(required_items);
    let schema_entries = vec![jkv("properties", properties), jkv("required", required), jkv("type", jstr("object"))];
    proof {
        assert(schema_entries@.map_values(|e: (String, Json)| (e.0@, jview(e.1))) =~= seq![("properties"@, properties@), ("required"@, required@), ("type"@, JView::Str("object"@))]);
    }
    let schema = jobj(schema_entries);
    schema
}

/// The schema of `delete_memory`'s arguments.
pub open spec fn delete_memory_schema() -> JView {
    JView::Object(
        seq![
            ("properties"@, JView::Object(
                seq![
                    ("memory_id"@, JView::Object(
                        seq![
                            ("description"@, JView::Str("ID of the memory to delete"@)),
                            ("type"@, JView::Str("string"@)),
                        ],
                    )),
                    ("reason"@, JView::Object(
                        seq![
                            ("description"@, JView::Str("Brief audit reason for deleting this memory"@)),
                            ("type"@, JView::Str("string"@)),
                        ],
                    )),
                ],
            )),
            ("required"@, JView::Array(seq![JView::Str("memory_id"@)])),
            ("type"@, JView::Str("object"@)),
        ],
    )
}

fn delete_memory_parameters() -> (j: Json)
    ensures
        j@ == delete_memory_schema(),
{
    let memory_id_entries = vec![jkv("description", jstr("ID of the memory to delete")), jkv("type", jstr("string"))];
    proof {
        assert(memory_id_entries@.map_values(|e: (String, Json)| (e.0@, jview(e.1))) =~= seq![("description"@, JView::Str("ID of the memory to delete"@)), ("type"@, JView::Str("string"@))]);
    }
    let memory_id = jobj(memory_id_entries);
    let reason_entries = vec![jkv("description", jstr("Brief audit reason for deleting this memory")), jkv("type", jstr("string"))];
    proof {
        assert(reason_entries@.map_values(|e: (String, Json)| (e.0@, jview(e.1))) =~= seq![("description"@, JView::Str("Brief audit reason for deleting this memory"@)), ("type"@, JView::Str("string"@))]);
    }
    let reason = jobj(reason_entries);
    let properties_entries = vec![jkv("memory_id", memory_id), jkv("reason", reason)];
    proof {
        assert(properties_entries@.map_values(|e: (String, Json)| (e.0@, jview(e.1))) =~= seq![("memory_id"@, memory_id@), ("reason"@, reason@)]);
    }
    let properties = jobj(properties_entries);
    let required_items = vec![jstr("memory_id")];
    proof {
        assert(required_items@.map_values(|x: Json| jview(x)) =~= seq![JView::Str("memory_id"@)]);
    }
    let required = jarr(required_items);
    let schema_entries = vec![jkv("properties", properties), jkv("required", required), jkv("type", jstr("object"))];
    proof {
        assert(schema_entries@.map_values(|e: (String, Json)| (e.0@, jview(e.1))) =~= seq![("properties"@, properties@), ("required"@, required@), ("type"@, JView::Str("object"@))]);
    }
    let schema = jobj(schema_entries);
    schema
}

/// Tools that recall, form, inspect, move and forget memories.
pub fn tools() -> (r: Vec<Tool>)
    ensures
        tool_names(r@) == seq!["recall_memories"@, "form_memory"@, "inspect_memory"@, "promote_profile_memory_to_person"@, "demote_person_memory_to_profile"@, "forget_memory"@, "delete_memory"@],
        r@[0].description@ == "Search memories by topic or keywords. Defaults to the current profile boundary; use scope=global only when intentionally searching across profiles."@,
        r@[0].parameters@ == recall_memories_schema(),
        r@[1].description@ == "Save something worth remembering. User-specific facts are saved to the current profile by default; use promote_profile_memory_to_person only after verification."@,
        r@[1].parameters@ == form_memory_schema(),
        r@[2].description@ == "Chosen-person-only audit view for one memory by id, including subjects, source, privacy, evidence, supersession, and review metadata."@,
        r@[2].parameters@ == inspect_memory_schema(),
        r@[3].description@ == "Deliberately promote a profile-level memory to a verified person grouping. Use only with explicit confirmation or strong verified evidence."@,
        r@[3].parameters@ == promote_profile_memory_to_person_schema(),
        r@[4].description@ == "Move an over-broad person-level memory back to a profile subject without deleting the memory."@,
        r@[4].parameters@ == demote_person_memory_to_profile_schema(),
        r@[5].description@ == "Remove a memory that's no longer relevant."@,
        r@[5].parameters@ == forget_memory_schema(),
        r@[6].description@ == "Chosen-person-only deletion for any memory by id, including sensitive, secret, external, or cross-profile memories."@,
        r@[6].parameters@ == delete_memory_schema(),
{
    let r = vec![
        Tool {
            name: owned("recall_memories"),
            description: owned("Search memories by topic or keywords. Defaults to the current profile boundary; use scope=global only when intentionally searching across profiles."),
            parameters: recall_memories_parameters(),
        },
        Tool {
            name: owned("form_memory"),
            description: owned("Save something worth remembering. User-specific facts are saved to the current profile by default; use promote_profile_memory_to_person only after verification."),
            parameters: form_memory_parameters(),
        },
        Tool {
            name: owned("inspect_memory"),
            description: owned("Chosen-person-only audit view for one memory by id, including subjects, source, privacy, evidence, supersession, and review metadata."),
            parameters: inspect_memory_parameters(),
        },
        Tool {
            name: owned("promote_profile_memory_to_person"),
            description: owned("Deliberately promote a profile-level memory to a verified person grouping. Use only with explicit confirmation or strong verified evidence."),
            parameters: promote_profile_memory_to_person_parameters(),
        },
        Tool {
            name: owned("demote_person_memory_to_profile"),
            description: owned("Move an over-broad person-level memory back to a profile subject without deleting the memory."),
            parameters: demote_person_memory_to_profile_parameters(),
        },
        Tool {
            name: owned("forget_memory"),
            description: owned("Remove a memory that's no longer relevant."),
            parameters: forget_memory_parameters(),
        },
        Tool {
            name: owned("delete_memory"),
            description: owned("Chosen-person-only deletion for any memory by id, including sensitive, secret, external, or cross-profile memories."),
            parameters: delete_memory_parameters(),
        },
    ];
    r
}

} // verus!
