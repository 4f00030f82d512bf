//! The tools offered to the model: their definitions (each parameter schema
//! a JSON object whose keys are kept in sorted order), and the logic behind
//! them.
use vstd::prelude::*;
use crate::json::{Json, JView, JsonNumber, jarr, jint, jkv, jmicros, jobj, jstr, jview};
use crate::text::owned;

pub mod decision;
pub mod intent;
pub mod memory;
pub mod messaging;
pub mod permission;

verus! {

/// A tool the model may call: its name, what it does, and the JSON schema of
/// its arguments.
pub struct Tool {
    pub name: String,
    pub description: String,
    pub parameters: Json,
}

pub open spec fn tool_names(ts: Seq<Tool>) -> Seq<Seq<char>> {
    ts.map_values(|t: Tool| t.name@)
}


/// The schema of `recall_memories`'s arguments.
pub open spec fn recall_memories_schema() -> JView {
    JView::Object(
        seq![
            ("properties"@, JView::Object(
                seq![
                    ("limit"@, JView::Object(
                        seq![
                            ("default"@, JView::Number(JsonNumber { micros: 3000000, integral: true })),
                            ("description"@, JView::Str("Max results (default 3)"@)),
                            ("type"@, JView::Str("integer"@)),
                        ],
                    )),
                    ("offset"@, JView::Object(
                        seq![
                            ("default"@, JView::Number(JsonNumber { micros: 0, integral: true })),
                            ("description"@, JView::Str("Skip this many results. Use to paginate \u{2014} first call with offset 0, then offset 3 for more."@)),
                            ("type"@, JView::Str("integer"@)),
                        ],
                    )),
                    ("query"@, JView::Object(
                        seq![
                            ("description"@, JView::Str("What to search for"@)),
                            ("type"@, JView::Str("string"@)),
                        ],
                    )),
                ],
            )),
            ("required"@, JView::Array(seq![JView::Str("query"@)])),
            ("type"@, JView::Str("object"@)),
        ],
    )
}

fn recall_memories_parameters() -> (j: Json)
    ensures
        j@ == recall_memories_schema(),
{
    let limit_entries = vec![jkv("default", jint(3)), jkv("description", jstr("Max results (default 3)")), jkv("type", jstr("integer"))];
    proof {
        assert(limit_entries@.map_values(|e: (String, Json)| (e.0@, jview(e.1))) =~= seq![("default"@, JView::Number(JsonNumber { micros: 3000000, integral: true })), ("description"@, JView::Str("Max results (default 3)"@)), ("type"@, JView::Str("integer"@))]);
    }
    let limit = jobj(limit_entries);
    let offset_entries = vec![jkv("default", jint(0)), jkv("description", jstr("Skip this many results. Use to paginate \u{2014} first call with offset 0, then offset 3 for more.")), jkv("type", jstr("integer"))];
    proof {
        assert(offset_entries@.map_values(|e: (String, Json)| (e.0@, jview(e.1))) =~= seq![("default"@, JView::Number(JsonNumber { micros: 0, integral: true })), ("description"@, JView::Str("Skip this many results. Use to paginate \u{2014} first call with offset 0, then offset 3 for more."@)), ("type"@, JView::Str("integer"@))]);
    }
    let offset = jobj(offset_entries);
    let query_entries = vec![jkv("description", jstr("What to search for")), jkv("type", jstr("string"))];
    proof {
        assert(query_entries@.map_values(|e: (String, Json)| (e.0@, jview(e.1))) =~= seq![("description"@, JView::Str("What to search for"@)), ("type"@, JView::Str("string"@))]);
    }
    let query = jobj(query_entries);
    let properties_entries = vec![jkv("limit", limit), jkv("offset", offset), jkv("query", query)];
    proof {
        assert(properties_entries@.map_values(|e: (String, Json)| (e.0@, jview(e.1))) =~= seq![("limit"@, limit@), ("offset"@, offset@), ("query"@, query@)]);
    }
    let properties = jobj(properties_entries);
    let required_items = vec![jstr("query")];
    proof {
        assert(required_items@.map_values(|x: Json| jview(x)) =~= seq![JView::Str("query"@)]);
    }
    let required = jarr(required_items);
    let schema_entries = vec![jkv("properties", properties), jkv("required", required), jkv("type", jstr("object"))];
    proof {
        assert(schema_entries@.map_values(|e: (String, Json)| (e.0@, jview(e.1))) =~= seq![("properties"@, properties@), ("required"@, required@), ("type"@, JView::Str("object"@))]);
    }
    let schema = jobj(schema_entries);
    schema
}

/// The schema of `form_memory`'s arguments.
pub open spec fn form_memory_schema() -> JView {
    JView::Object(
        seq![
            ("properties"@, JView::Object(
                seq![
                    ("content"@, JView::Object(
                        seq![
                            ("description"@, JView::Str("What to remember"@)),
                            ("type"@, JView::Str("string"@)),
                        ],
                    )),
                    ("importance"@, JView::Object(
                        seq![
                            ("default"@, JView::Number(JsonNumber { micros: 500000, integral: false })),
                            ("description"@, JView::Str("0.0 to 1.0, how important this is"@)),
                            ("type"@, JView::Str("number"@)),
                        ],
                    )),
                    ("kind"@, JView::Object(
                        seq![
                            ("description"@, JView::Str("episodic = what happened, semantic = facts/knowledge, procedural = how to do things"@)),
                            ("enum"@, JView::Array(seq![JView::Str("episodic"@), JView::Str("semantic"@), JView::Str("procedural"@)])),
                            ("type"@, JView::Str("string"@)),
                        ],
                    )),
                    ("people"@, JView::Object(
                        seq![
                            ("description"@, JView::Str("Person IDs this memory involves"@)),
                            ("items"@, JView::Object(
                                seq![
                                    ("type"@, JView::Str("string"@)),
                                ],
                            )),
                            ("type"@, JView::Str("array"@)),
                        ],
                    )),
                ],
            )),
            ("required"@, JView::Array(seq![JView::Str("content"@), JView::Str("kind"@)])),
            ("type"@, JView::Str("object"@)),
        ],
    )
}

fn form_memory_parameters() -> (j: Json)
    ensures
        j@ == form_memory_schema(),
{
    let content_entries = vec![jkv("description", jstr("What to remember")), jkv("type", jstr("string"))];
    proof {
        assert(content_entries@.map_values(|e: (String, Json)| (e.0@, jview(e.1))) =~= seq![("description"@, JView::Str("What to remember"@)), ("type"@, JView::Str("string"@))]);
    }
    let content = jobj(content_entries);
    let importance_entries = vec![jkv("default", jmicros(500000)), jkv("description", jstr("0.0 to 1.0, how important this is")), jkv("type", jstr("number"))];
    proof {
        assert(importance_entries@.map_values(|e: (String, Json)| (e.0@, jview(e.1))) =~= seq![("default"@, JView::Number(JsonNumber { micros: 500000, integral: false })), ("description"@, JView::Str("0.0 to 1.0, how important this is"@)), ("type"@, JView::Str("number"@))]);
    }
    let importance = jobj(importance_entries);
    let enum__items = vec![jstr("episodic"), jstr("semantic"), jstr("procedural")];
    proof {
        assert(enum__items@.map_values(|x: Json| jview(x)) =~= seq![JView::Str("episodic"@), JView::Str("semantic"@), JView::Str("procedural"@)]);
    }
    let enum_ = jarr(enum__items);
    let kind_entries = vec![jkv("description", jstr("episodic = what happened, semantic = facts/knowledge, procedural = how to do things")), jkv("enum", enum_), jkv("type", jstr("string"))];
    proof {
        assert(kind_entries@.map_values(|e: (String, Json)| (e.0@, jview(e.1))) =~= seq![("description"@, JView::Str("episodic = what happened, semantic = facts/knowledge, procedural = how to do things"@)), ("enum"@, enum_@), ("type"@, JView::Str("string"@))]);
    }
    let kind = jobj(kind_entries);
    let items_entries = vec![jkv("type", jstr("string"))];
    proof {
        assert(items_entries@.map_values(|e: (String, Json)| (e.0@, jview(e.1))) =~= seq![("type"@, JView::Str("string"@))]);
    }
    let items = jobj(items_entries);
    let people_entries = vec![jkv("description", jstr("Person IDs this memory involves")), jkv("items", items), jkv("type", jstr("array"))];
    proof {
        assert(people_entries@.map_values(|e: (String, Json)| (e.0@, jview(e.1))) =~= seq![("description"@, JView::Str("Person IDs this memory involves"@)), ("items"@, items@), ("type"@, JView::Str("array"@))]);
    }
    let people = jobj(people_entries);
    let properties_entries = vec![jkv("content", content), jkv("importance", importance), jkv("kind", kind), jkv("people", people)];
    proof {
        assert(properties_entries@.map_values(|e: (String, Json)| (e.0@, jview(e.1))) =~= seq![("content"@, content@), ("importance"@, importance@), ("kind"@, kind@), ("people"@, people@)]);
    }
    let properties = jobj(properties_entries);
    let required_items = vec![jstr("content"), jstr("kind")];
    proof {
        assert(required_items@.map_values(|x: Json| jview(x)) =~= seq![JView::Str("content"@), JView::Str("kind"@)]);
    }
    let required = jarr(required_items);
    let schema_entries = vec![jkv("properties", properties), jkv("required", required), jkv("type", jstr("object"))];
    proof {
        assert(schema_entries@.map_values(|e: (String, Json)| (e.0@, jview(e.1))) =~= seq![("properties"@, properties@), ("required"@, required@), ("type"@, JView::Str("object"@))]);
    }
    let schema = jobj(schema_entries);
    schema
}

/// The schema of `send_message`'s arguments.
pub open spec fn send_message_schema() -> JView {
    JView::Object(
        seq![
            ("properties"@, JView::Object(
                seq![
                    ("content"@, JView::Object(
                        seq![
                            ("description"@, JView::Str("The message text"@)),
                            ("type"@, JView::Str("string"@)),
                        ],
                    )),
                    ("external_id"@, JView::Object(
                        seq![
                            ("description"@, JView::Str("Recipient's ID on that platform. Must be paired with platform_id."@)),
                            ("type"@, JView::Str("string"@)),
                        ],
                    )),
                    ("filename"@, JView::Object(
                        seq![
                            ("description"@, JView::Str("Filename for file attachments"@)),
                            ("type"@, JView::Str("string"@)),
                        ],
                    )),
                    ("media_type"@, JView::Object(
                        seq![
                            ("description"@, JView::Str("Type of media attachment"@)),
                            ("enum"@, JView::Array(seq![JView::Str("image"@), JView::Str("video"@), JView::Str("audio"@), JView::Str("sticker"@), JView::Str("file"@)])),
                            ("type"@, JView::Str("string"@)),
                        ],
                    )),
                    ("media_url"@, JView::Object(
                        seq![
                            ("description"@, JView::Str("URL of media to attach"@)),
                            ("type"@, JView::Str("string"@)),
                        ],
                    )),
                    ("mime_type"@, JView::Object(
                        seq![
                            ("description"@, JView::Str("MIME type of the media (e.g. image/png, video/mp4)"@)),
                            ("type"@, JView::Str("string"@)),
                        ],
                    )),
                    ("platform_id"@, JView::Object(
                        seq![
                            ("description"@, JView::Str("Platform to send through (e.g. discord, telegram, whatsapp)"@)),
                            ("type"@, JView::Str("string"@)),
                        ],
                    )),
                ],
            )),
            ("required"@, JView::Array(seq![JView::Str("content"@)])),
            ("type"@, JView::Str("object"@)),
        ],
    )
}

fn send_message_parameters() -> (j: Json)
    ensures
        j@ == send_message_schema(),
{
    let content_entries = vec![jkv("description", jstr("The message text")), jkv("type", jstr("string"))];
    proof {
        assert(content_entries@.map_values(|e: (String, Json)| (e.0@, jview(e.1))) =~= seq![("description"@, JView::Str("The message text"@)), ("type"@, JView::Str("string"@))]);
    }
    let content = jobj(content_entries);
    let external_id_entries = vec![jkv("description", jstr("Recipient's ID on that platform. Must be paired with platform_id.")), jkv("type", jstr("string"))];
    proof {
        assert(external_id_entries@.map_values(|e: (String, Json)| (e.0@, jview(e.1))) =~= seq![("description"@, JView::Str("Recipient's ID on that platform. Must be paired with platform_id."@)), ("type"@, JView::Str("string"@))]);
    }
    let external_id = jobj(external_id_entries);
    let filename_entries = vec![jkv("description", jstr("Filename for file attachments")), jkv("type", jstr("string"))];
    proof {
        assert(filename_entries@.map_values(|e: (String, Json)| (e.0@, jview(e.1))) =~= seq![("description"@, JView::Str("Filename for file attachments"@)), ("type"@, JView::Str("string"@))]);
    }
    let filename = jobj(filename_entries);
    let enum__items = vec![jstr("image"), jstr("video"), jstr("audio"), jstr("sticker"), jstr("file")];
    proof {
        assert(enum__items@.map_values(|x: Json| jview(x)) =~= seq![JView::Str("image"@), JView::Str("video"@), JView::Str("audio"@), JView::Str("sticker"@), JView::Str("file"@)]);
    }
    let enum_ = jarr(enum__items);
    let media_type_entries = vec![jkv("description", jstr("Type of media attachment")), jkv("enum", enum_), jkv("type", jstr("string"))];
    proof {
        assert(media_type_entries@.map_values(|e: (String, Json)| (e.0@, jview(e.1))) =~= seq![("description"@, JView::Str("Type of media attachment"@)), ("enum"@, enum_@), ("type"@, JView::Str("string"@))]);
    }
    let media_type = jobj(media_type_entries);
    let media_url_entries = vec![jkv("description", jstr("URL of media to attach")), jkv("type", jstr("string"))];
    proof {
        assert(media_url_entries@.map_values(|e: (String, Json)| (e.0@, jview(e.1))) =~= seq![("description"@, JView::Str("URL of media to attach"@)), ("type"@, JView::Str("string"@))]);
    }
    let media_url = jobj(media_url_entries);
    let mime_type_entries = vec![jkv("description", jstr("MIME type of the media (e.g. image/png, video/mp4)")), jkv("type", jstr("string"))];
    proof {
        assert(mime_type_entries@.map_values(|e: (String, Json)| (e.0@, jview(e.1))) =~= seq![("description"@, JView::Str("MIME type of the media (e.g. image/png, video/mp4)"@)), ("type"@, JView::Str("string"@))]);
    }
    let mime_type = jobj(mime_type_entries);
    let platform_id_entries = vec![jkv("description", jstr("Platform to send through (e.g. discord, telegram, whatsapp)")), jkv("type", jstr("string"))];
    proof {
        assert(platform_id_entries@.map_values(|e: (String, Json)| (e.0@, jview(e.1))) =~= seq![("description"@, JView::Str("Platform to send through (e.g. discord, telegram, whatsapp)"@)), ("type"@, JView::Str("string"@))]);
    }
    let platform_id = jobj(platform_id_entries);
    let properties_entries = vec![jkv("content", content), jkv("external_id", external_id), jkv("filename", filename), jkv("media_type", media_type), jkv("media_url", media_url), jkv("mime_type", mime_type), jkv("platform_id", platform_id)];
    proof {
        assert(properties_entries@.map_values(|e: (String, Json)| (e.0@, jview(e.1))) =~= seq![("content"@, content@), ("external_id"@, external_id@), ("filename"@, filename@), ("media_type"@, media_type@), ("media_url"@, media_url@), ("mime_type"@, mime_type@), ("platform_id"@, platform_id@)]);
    }
    let properties = jobj(properties_entries);
    let required_items = vec![jstr("content")];
    proof {
        assert(required_items@.map_values(|x: Json| jview(x)) =~= seq![JView::Str("content"@)]);
    }
    let required = jarr(required_items);
    let schema_entries = vec![jkv("properties", properties), jkv("required", required), jkv("type", jstr("object"))];
    proof {
        assert(schema_entries@.map_values(|e: (String, Json)| (e.0@, jview(e.1))) =~= seq![("properties"@, properties@), ("required"@, required@), ("type"@, JView::Str("object"@))]);
    }
    let schema = jobj(schema_entries);
    schema
}

/// The schema of `lookup_contacts`'s arguments.
pub open spec fn lookup_contacts_schema() -> JView {
    JView::Object(
        seq![
            ("properties"@, JView::Object(
                seq![
                    ("person"@, JView::Object(
                        seq![
                            ("description"@, JView::Str("Person ID to look up"@)),
                            ("type"@, JView::Str("string"@)),
                        ],
                    )),
                ],
            )),
            ("required"@, JView::Array(seq![JView::Str("person"@)])),
            ("type"@, JView::Str("object"@)),
        ],
    )
}

fn lookup_contacts_parameters() -> (j: Json)
    ensures
        j@ == lookup_contacts_schema(),
{
    let person_entries = vec![jkv("description", jstr("Person ID to look up")), jkv("type", jstr("string"))];
    proof {
        assert(person_entries@.map_values(|e: (String, Json)| (e.0@, jview(e.1))) =~= seq![("description"@, JView::Str("Person ID to look up"@)), ("type"@, JView::Str("string"@))]);
    }
    let person = jobj(person_entries);
    let properties_entries = vec![jkv("person", person)];
    proof {
        assert(properties_entries@.map_values(|e: (String, Json)| (e.0@, jview(e.1))) =~= seq![("person"@, person@)]);
    }
    let properties = jobj(properties_entries);
    let required_items = vec![jstr("person")];
    proof {
        assert(required_items@.map_values(|x: Json| jview(x)) =~= seq![JView::Str("person"@)]);
    }
    let required = jarr(required_items);
    let schema_entries = vec![jkv("properties", properties), jkv("required", required), jkv("type", jstr("object"))];
    proof {
        assert(schema_entries@.map_values(|e: (String, Json)| (e.0@, jview(e.1))) =~= seq![("properties"@, properties@), ("required"@, required@), ("type"@, JView::Str("object"@))]);
    }
    let schema = jobj(schema_entries);
    schema
}

/// The schema of `reflect`'s arguments.
pub open spec fn reflect_schema() -> JView {
    JView::Object(
        seq![
            ("properties"@, JView::Object(
                seq![
                    ("affect_shift"@, JView::Object(
                        seq![
                            ("properties"@, JView::Object(
                                seq![
                                    ("arousal"@, JView::Object(
                                        seq![
                                            ("type"@, JView::Str("number"@)),
                                        ],
                                    )),
                                    ("dominance"@, JView::Object(
                                        seq![
                                            ("type"@, JView::Str("number"@)),
                                        ],
                                    )),
                                    ("valence"@, JView::Object(
                                        seq![
                                            ("type"@, JView::Str("number"@)),
                                        ],
                                    )),
                                ],
                            )),
                            ("type"@, JView::Str("object"@)),
                        ],
                    )),
                    ("belief_changes"@, JView::Object(
                        seq![
                            ("items"@, JView::Object(
                                seq![
                                    ("properties"@, JView::Object(
                                        seq![
                                            ("about_person"@, JView::Object(
                                                seq![
                                                    ("type"@, JView::Str("string"@)),
                                                ],
                                            )),
                                            ("confidence_delta"@, JView::Object(
                                                seq![
                                                    ("type"@, JView::Str("number"@)),
                                                ],
                                            )),
                                            ("new_stance"@, JView::Object(
                                                seq![
                                                    ("type"@, JView::Str("string"@)),
                                                ],
                                            )),
                                            ("reason"@, JView::Object(
                                                seq![
                                                    ("type"@, JView::Str("string"@)),
                                                ],
                                            )),
                                            ("topic"@, JView::Object(
                                                seq![
                                                    ("type"@, JView::Str("string"@)),
                                                ],
                                            )),
                                        ],
                                    )),
                                    ("required"@, JView::Array(seq![JView::Str("topic"@), JView::Str("confidence_delta"@), JView::Str("reason"@)])),
                                    ("type"@, JView::Str("object"@)),
                                ],
                            )),
                            ("type"@, JView::Str("array"@)),
                        ],
                    )),
                    ("growth_note"@, JView::Object(
                        seq![
                            ("description"@, JView::Str("A brief note about personal growth from this interaction"@)),
                            ("type"@, JView::Str("string"@)),
                        ],
                    )),
                    ("new_interests"@, JView::Object(
                        seq![
                            ("items"@, JView::Object(
                                seq![
                                    ("type"@, JView::Str("string"@)),
                                ],
                            )),
                            ("type"@, JView::Str("array"@)),
                        ],
                    )),
                    ("relationship_changes"@, JView::Object(
                        seq![
                            ("items"@, JView::Object(
                                seq![
                                    ("properties"@, JView::Object(
                                        seq![
                                            ("familiarity_delta"@, JView::Object(
                                                seq![
                                                    ("type"@, JView::Str("number"@)),
                                                ],
                                            )),
                                            ("person"@, JView::Object(
                                                seq![
                                                    ("type"@, JView::Str("string"@)),
                                                ],
                                            )),
                                            ("trust_delta"@, JView::Object(
                                                seq![
                                                    ("type"@, JView::Str("number"@)),
                                                ],
                                            )),
                                            ("valence_delta"@, JView::Object(
                                                seq![
                                                    ("type"@, JView::Str("number"@)),
                                                ],
                                            )),
                                        ],
                                    )),
                                    ("required"@, JView::Array(seq![JView::Str("person"@)])),
                                    ("type"@, JView::Str("object"@)),
                                ],
                            )),
                            ("type"@, JView::Str("array"@)),
                        ],
                    )),
                    ("trait_nudges"@, JView::Object(
                        seq![
                            ("items"@, JView::Object(
                                seq![
                                    ("properties"@, JView::Object(
                                        seq![
                                            ("direction"@, JView::Object(
                                                seq![
                                                    ("description"@, JView::Str("Positive to increase, negative to decrease. Small values like -0.05 to 0.05."@)),
                                                    ("type"@, JView::Str("number"@)),
                                                ],
                                            )),
                                            ("reason"@, JView::Object(
                                                seq![
                                                    ("type"@, JView::Str("string"@)),
                                                ],
                                            )),
                                            ("trait_name"@, JView::Object(
                                                seq![
                                                    ("enum"@, JView::Array(seq![JView::Str("openness"@), JView::Str("warmth"@), JView::Str("assertiveness"@), JView::Str("humor"@), JView::Str("curiosity"@), JView::Str("patience"@), JView::Str("directness"@), JView::Str("playfulness"@)])),
                                                    ("type"@, JView::Str("string"@)),
                                                ],
                                            )),
                                        ],
                                    )),
                                    ("required"@, JView::Array(seq![JView::Str("trait_name"@), JView::Str("direction"@), JView::Str("reason"@)])),
                                    ("type"@, JView::Str("object"@)),
                                ],
                            )),
                            ("type"@, JView::Str("array"@)),
                        ],
                    )),
                ],
            )),
            ("type"@, JView::Str("object"@)),
        ],
    )
}

fn reflect_parameters() -> (j: Json)
    ensures
        j@ == reflect_schema(),
{
    let arousal_entries = vec![jkv("type", jstr("number"))];
    proof {
        assert(arousal_entries@.map_values(|e: (String, Json)| (e.0@, jview(e.1))) =~= seq![("type"@, JView::Str("number"@))]);
    }
    let arousal = jobj(arousal_entries);
    let dominance_entries = vec![jkv("type", jstr("number"))];
    proof {
        assert(dominance_entries@.map_values(|e: (String, Json)| (e.0@, jview(e.1))) =~= seq![("type"@, JView::Str("number"@))]);
    }
    let dominance = jobj(dominance_entries);
    let valence_entries = vec![jkv("type", jstr("number"))];
    proof {
        assert(valence_entries@.map_values(|e: (String, Json)| (e.0@, jview(e.1))) =~= seq![("type"@, JView::Str("number"@))]);
    }
    let valence = jobj(valence_entries);
    let properties_entries = vec![jkv("arousal", arousal), jkv("dominance", dominance), jkv("valence", valence)];
    proof {
        assert(properties_entries@.map_values(|e: (String, Json)| (e.0@, jview(e.1))) =~= seq![("arousal"@, arousal@), ("dominance"@, dominance@), ("valence"@, valence@)]);
    }
    let properties = jobj(properties_entries);
    let affect_shift_entries = vec![jkv("properties", properties), jkv("type", jstr("object"))];
    proof {
        assert(affect_shift_entries@.map_values(|e: (String, Json)| (e.0@, jview(e.1))) =~= seq![("properties"@, properties@), ("type"@, JView::Str("object"@))]);
    }
    let affect_shift = jobj(affect_shift_entries);
    let about_person_entries = vec![jkv("type", jstr("string"))];
    proof {
        assert(about_person_entries@.map_values(|e: (String, Json)| (e.0@, jview(e.1))) =~= seq![("type"@, JView::Str("string"@))]);
    }
    let about_person = jobj(about_person_entries);
    let confidence_delta_entries = vec![jkv("type", jstr("number"))];
    proof {
        assert(confidence_delta_entries@.map_values(|e: (String, Json)| (e.0@, jview(e.1))) =~= seq![("type"@, JView::Str("number"@))]);
    }
    let confidence_delta = jobj(confidence_delta_entries);
    let new_stance_entries = vec![jkv("type", jstr("string"))];
    proof {
        assert(new_stance_entries@.map_values(|e: (String, Json)| (e.0@, jview(e.1))) =~= seq![("type"@, JView::Str("string"@))]);
    }
    let new_stance = jobj(new_stance_entries);
    let reason_entries = vec![jkv("type", jstr("string"))];
    proof {
        assert(reason_entries@.map_values(|e: (String, Json)| (e.0@, jview(e.1))) =~= seq![("type"@, JView::Str("string"@))]);
    }
    let reason = jobj(reason_entries);
    let topic_entries = vec![jkv("type", jstr("string"))];
    proof {
        assert(topic_entries@.map_values(|e: (String, Json)| (e.0@, jview(e.1))) =~= seq![("type"@, JView::Str("string"@))]);
    }
    let topic = jobj(topic_entries);
    let properties_2_entries = vec![jkv("about_person", about_person), jkv("confidence_delta", confidence_delta), jkv("new_stance", new_stance), jkv("reason", reason), jkv("topic", topic)];
    proof {
        assert(properties_2_entries@.map_values(|e: (String, Json)| (e.0@, jview(e.1))) =~= seq![("about_person"@, about_person@), ("confidence_delta"@, confidence_delta@), ("new_stance"@, new_stance@), ("reason"@, reason@), ("topic"@, topic@)]);
    }
    let properties_2 = jobj(properties_2_entries);
    let required_items = vec![jstr("topic"), jstr("confidence_delta"), jstr("reason")];
    proof {
        assert(required_items@.map_values(|x: Json| jview(x)) =~= seq![JView::Str("topic"@), JView::Str("confidence_delta"@), JView::Str("reason"@)]);
    }
    let required = jarr(required_items);
    let items_entries = vec![jkv("properties", properties_2), jkv("required", required), jkv("type", jstr("object"))];
    proof {
        assert(items_entries@.map_values(|e: (String, Json)| (e.0@, jview(e.1))) =~= seq![("properties"@, properties_2@), ("required"@, required@), ("type"@, JView::Str("object"@))]);
    }
    let items = jobj(items_entries);
    let belief_changes_entries = vec![jkv("items", items), jkv("type", jstr("array"))];
    proof {
        assert(belief_changes_entries@.map_values(|e: (String, Json)| (e.0@, jview(e.1))) =~= seq![("items"@, items@), ("type"@, JView::Str("array"@))]);
    }
    let belief_changes = jobj(belief_changes_entries);
    let growth_note_entries = vec![jkv("description", jstr("A brief note about personal growth from this interaction")), jkv("type", jstr("string"))];
    proof {
        assert(growth_note_entries@.map_values(|e: (String, Json)| (e.0@, jview(e.1))) =~= seq![("description"@, JView::Str("A brief note about personal growth from this interaction"@)), ("type"@, JView::Str("string"@))]);
    }
    let growth_note = jobj(growth_note_entries);
    let items_2_entries = vec![jkv("type", jstr("string"))];
    proof {
        assert(items_2_entries@.map_values(|e: (String, Json)| (e.0@, jview(e.1))) =~= seq![("type"@, JView::Str("string"@))]);
    }
    let items_2 = jobj(items_2_entries);
    let new_interests_entries = vec![jkv("items", items_2), jkv("type", jstr("array"))];
    proof {
        assert(new_interests_entries@.map_values(|e: (String, Json)| (e.0@, jview(e.1))) =~= seq![("items"@, items_2@), ("type"@, JView::Str("array"@))]);
    }
    let new_interests = jobj(new_interests_entries);
    let familiarity_delta_entries = vec![jkv("type", jstr("number"))];
    proof {
        assert(familiarity_delta_entries@.map_values(|e: (String, Json)| (e.0@, jview(e.1))) =~= seq![("type"@, JView::Str("number"@))]);
    }
    let familiarity_delta = jobj(familiarity_delta_entries);
    let person_entries = vec![jkv("type", jstr("string"))];
    proof {
        assert(person_entries@.map_values(|e: (String, Json)| (e.0@, jview(e.1))) =~= seq![("type"@, JView::Str("string"@))]);
    }
    let person = jobj(person_entries);
    let trust_delta_entries = vec![jkv("type", jstr("number"))];
    proof {
        assert(trust_delta_entries@.map_values(|e: (String, Json)| (e.0@, jview(e.1))) =~= seq![("type"@, JView::Str("number"@))]);
    }
    let trust_delta = jobj(trust_delta_entries);
    let valence_delta_entries = vec![jkv("type", jstr("number"))];
    proof {
        assert(valence_delta_entries@.map_values(|e: (String, Json)| (e.0@, jview(e.1))) =~= seq![("type"@, JView::Str("number"@))]);
    }
    let valence_delta = jobj(valence_delta_entries);
    let properties_3_entries = vec![jkv("familiarity_delta", familiarity_delta), jkv("person", person), jkv("trust_delta", trust_delta), jkv("valence_delta", valence_delta)];
    proof {
        assert(properties_3_entries@.map_values(|e: (String, Json)| (e.0@, jview(e.1))) =~= seq![("familiarity_delta"@, familiarity_delta@), ("person"@, person@), ("trust_delta"@, trust_delta@), ("valence_delta"@, valence_delta@)]);
    }
    let properties_3 = jobj(properties_3_entries);
    let required_2_items = vec![jstr("person")];
    proof {
        assert(required_2_items@.map_values(|x: Json| jview(x)) =~= seq![JView::Str("person"@)]);
    }
    let required_2 = jarr(required_2_items);
    let items_3_entries = vec![jkv("properties", properties_3), jkv("required", required_2), jkv("type", jstr("object"))];
    proof {
        assert(items_3_entries@.map_values(|e: (String, Json)| (e.0@, jview(e.1))) =~= seq![("properties"@, properties_3@), ("required"@, required_2@), ("type"@, JView::Str("object"@))]);
    }
    let items_3 = jobj(items_3_entries);
    let relationship_changes_entries = vec![jkv("items", items_3), jkv("type", jstr("array"))];
    proof {
        assert(relationship_changes_entries@.map_values(|e: (String, Json)| (e.0@, jview(e.1))) =~= seq![("items"@, items_3@), ("type"@, JView::Str("array"@))]);
    }
    let relationship_changes = jobj(relationship_changes_entries);
    let direction_entries = vec![jkv("description", jstr("Positive to increase, negative to decrease. Small values like -0.05 to 0.05.")), jkv("type", jstr("number"))];
    proof {
        assert(direction_entries@.map_values(|e: (String, Json)| (e.0@, jview(e.1))) =~= seq![("description"@, JView::Str("Positive to increase, negative to decrease. Small values like -0.05 to 0.05."@)), ("type"@, JView::Str("number"@))]);
    }
    let direction = jobj(direction_entries);
    let reason_2_entries = vec![jkv("type", jstr("string"))];
    proof {
        assert(reason_2_entries@.map_values(|e: (String, Json)| (e.0@, jview(e.1))) =~= seq![("type"@, JView::Str("string"@))]);
    }
    let reason_2 = jobj(reason_2_entries);
    let enum__items = vec![jstr("openness"), jstr("warmth"), jstr("assertiveness"), jstr("humor"), jstr("curiosity"), jstr("patience"), jstr("directness"), jstr("playfulness")];
    proof {
        assert(enum__items@.map_values(|x: Json| jview(x)) =~= seq![JView::Str("openness"@), JView::Str("warmth"@), JView::Str("assertiveness"@), JView::Str("humor"@), JView::Str("curiosity"@), JView::Str("patience"@), JView::Str("directness"@), JView::Str("playfulness"@)]);
    }
    let enum_ = jarr(enum__items);
    let trait_name_entries = vec![jkv("enum", enum_), jkv("type", jstr("string"))];
    proof {
        assert(trait_name_entries@.map_values(|e: (String, Json)| (e.0@, jview(e.1))) =~= seq![("enum"@, enum_@), ("type"@, JView::Str("string"@))]);
    }
    let trait_name = jobj(trait_name_entries);
    let properties_4_entries = vec![jkv("direction", direction), jkv("reason", reason_2), jkv("trait_name", trait_name)];
    proof {
        assert(properties_4_entries@.map_values(|e: (String, Json)| (e.0@, jview(e.1))) =~= seq![("direction"@, direction@), ("reason"@, reason_2@), ("trait_name"@, trait_name@)]);
    }
    let properties_4 = jobj(properties_4_entries);
    let required_3_items = vec![jstr("trait_name"), jstr("direction"), jstr("reason")];
    proof {
        assert(required_3_items@.map_values(|x: Json| jview(x)) =~= seq![JView::Str("trait_name"@), JView::Str("direction"@), JView::Str("reason"@)]);
    }
    let required_3 = jarr(required_3_items);
    let items_4_entries = vec![jkv("properties", properties_4), jkv("required", required_3), jkv("type", jstr("object"))];
    proof {
        assert(items_4_entries@.map_values(|e: (String, Json)| (e.0@, jview(e.1))) =~= seq![("properties"@, properties_4@), ("required"@, required_3@), ("type"@, JView::Str("object"@))]);
    }
    let items_4 = jobj(items_4_entries);
    let trait_nudges_entries = vec![jkv("items", items_4), jkv("type", jstr("array"))];
    proof {
        assert(trait_nudges_entries@.map_values(|e: (String, Json)| (e.0@, jview(e.1))) =~= seq![("items"@, items_4@), ("type"@, JView::Str("array"@))]);
    }
    let trait_nudges = jobj(trait_nudges_entries);
    let properties_5_entries = vec![jkv("affect_shift", affect_shift), jkv("belief_changes", belief_changes), jkv("growth_note", growth_note), jkv("new_interests", new_interests), jkv("relationship_changes", relationship_changes), jkv("trait_nudges", trait_nudges)];
    proof {
        assert(properties_5_entries@.map_values(|e: (String, Json)| (e.0@, jview(e.1))) =~= seq![("affect_shift"@, affect_shift@), ("belief_changes"@, belief_changes@), ("growth_note"@, growth_note@), ("new_interests"@, new_interests@), ("relationship_changes"@, relationship_changes@), ("trait_nudges"@, trait_nudges@)]);
    }
    let properties_5 = jobj(properties_5_entries);
    let schema_entries = vec![jkv("properties", properties_5), jkv("type", jstr("object"))];
    proof {
        assert(schema_entries@.map_values(|e: (String, Json)| (e.0@, jview(e.1))) =~= seq![("properties"@, properties_5@), ("type"@, JView::Str("object"@))]);
    }
    let schema = jobj(schema_entries);
    schema
}

/// The schema of `note_thought`'s arguments.
pub open spec fn note_thought_schema() -> JView {
    JView::Object(
        seq![
            ("properties"@, JView::Object(
                seq![
                    ("content"@, JView::Object(
                        seq![
                            ("description"@, JView::Str("Your thought"@)),
                            ("type"@, JView::Str("string"@)),
                        ],
                    )),
                    ("kind"@, JView::Object(
                        seq![
                            ("enum"@, JView::Array(seq![JView::Str("reflection"@), JView::Str("rumination"@), JView::Str("consolidation"@), JView::Str("planning"@), JView::Str("observation"@)])),
                            ("type"@, JView::Str("string"@)),
                        ],
                    )),
                ],
            )),
            ("required"@, JView::Array(seq![JView::Str("kind"@), JView::Str("content"@)])),
            ("type"@, JView::Str("object"@)),
        ],
    )
}

fn note_thought_parameters() -> (j: Json)
    ensures
        j@ == note_thought_schema(),
{
    let content_entries = vec![jkv("description", jstr("Your thought")), jkv("type", jstr("string"))];
    proof {
        assert(content_entries@.map_values(|e: (String, Json)| (e.0@, jview(e.1))) =~= seq![("description"@, JView::Str("Your thought"@)), ("type"@, JView::Str("string"@))]);
    }
    let content = jobj(content_entries);
    let enum__items = vec![jstr("reflection"), jstr("rumination"), jstr("consolidation"), jstr("planning"), jstr("observation")];
    proof {
        assert(enum__items@.map_values(|x: Json| jview(x)) =~= seq![JView::Str("reflection"@), JView::Str("rumination"@), JView::Str("consolidation"@), JView::Str("planning"@), JView::Str("observation"@)]);
    }
    let enum_ = jarr(enum__items);
    let kind_entries = vec![jkv("enum", enum_), jkv("type", jstr("string"))];
    proof {
        assert(kind_entries@.map_values(|e: (String, Json)| (e.0@, jview(e.1))) =~= seq![("enum"@, enum_@), ("type"@, JView::Str("string"@))]);
    }
    let kind = jobj(kind_entries);
    let properties_entries = vec![jkv("content", content), jkv("kind", kind)];
    proof {
        assert(properties_entries@.map_values(|e: (String, Json)| (e.0@, jview(e.1))) =~= seq![("content"@, content@), ("kind"@, kind@)]);
    }
    let properties = jobj(properties_entries);
    let required_items = vec![jstr("kind"), jstr("content")];
    proof {
        assert(required_items@.map_values(|x: Json| jview(x)) =~= seq![JView::Str("kind"@), JView::Str("content"@)]);
    }
    let required = jarr(required_items);
    let schema_entries = vec![jkv("properties", properties), jkv("required", required), jkv("type", jstr("object"))];
    proof {
        assert(schema_entries@.map_values(|e: (String, Json)| (e.0@, jview(e.1))) =~= seq![("properties"@, properties@), ("required"@, required@), ("type"@, JView::Str("object"@))]);
    }
    let schema = jobj(schema_entries);
    schema
}

/// The schema of `create_intent`'s arguments.
pub open spec fn create_intent_schema() -> JView {
    JView::Object(
        seq![
            ("properties"@, JView::Object(
                seq![
                    ("condition"@, JView::Object(
                        seq![
                            ("description"@, JView::Str("Natural language condition for triggered intents, e.g. 'next time Sam messages'"@)),
                            ("type"@, JView::Str("string"@)),
                        ],
                    )),
                    ("conversation"@, JView::Object(
                        seq![
                            ("description"@, JView::Str("Conversation ID for context"@)),
                            ("type"@, JView::Str("string"@)),
                        ],
                    )),
                    ("fire_at"@, JView::Object(
                        seq![
                            ("description"@, JView::Str("Unix timestamp for scheduled intents"@)),
                            ("type"@, JView::Str("integer"@)),
                        ],
                    )),
                    ("kind"@, JView::Object(
                        seq![
                            ("description"@, JView::Str("scheduled = at a specific time, triggered = when a condition is met"@)),
                            ("enum"@, JView::Array(seq![JView::Str("scheduled"@), JView::Str("triggered"@)])),
                            ("type"@, JView::Str("string"@)),
                        ],
                    )),
                    ("person"@, JView::Object(
                        seq![
                            ("description"@, JView::Str("Person ID this intent relates to"@)),
                            ("type"@, JView::Str("string"@)),
                        ],
                    )),
                    ("task"@, JView::Object(
                        seq![
                            ("description"@, JView::Str("What to do when the intent fires"@)),
                            ("type"@, JView::Str("string"@)),
                        ],
                    )),
                ],
            )),
            ("required"@, JView::Array(seq![JView::Str("task"@), JView::Str("kind"@)])),
            ("type"@, JView::Str("object"@)),
        ],
    )
}

fn create_intent_parameters() -> (j: Json)
    ensures
        j@ == create_intent_schema(),
{
    let condition_entries = vec![jkv("description", jstr("Natural language condition for triggered intents, e.g. 'next time Sam messages'")), jkv("type", jstr("string"))];
    proof {
        assert(condition_entries@.map_values(|e: (String, Json)| (e.0@, jview(e.1))) =~= seq![("description"@, JView::Str("Natural language condition for triggered intents, e.g. 'next time Sam messages'"@)), ("type"@, JView::Str("string"@))]);
    }
    let condition = jobj(condition_entries);
    let conversation_entries = vec![jkv("description", jstr("Conversation ID for context")), jkv("type", jstr("string"))];
    proof {
        assert(conversation_entries@.map_values(|e: (String, Json)| (e.0@, jview(e.1))) =~= seq![("description"@, JView::Str("Conversation ID for context"@)), ("type"@, JView::Str("string"@))]);
    }
    let conversation = jobj(conversation_entries);
    let fire_at_entries = vec![jkv("description", jstr("Unix timestamp for scheduled intents")), jkv("type", jstr("integer"))];
    proof {
        assert(fire_at_entries@.map_values(|e: (String, Json)| (e.0@, jview(e.1))) =~= seq![("description"@, JView::Str("Unix timestamp for scheduled intents"@)), ("type"@, JView::Str("integer"@))]);
    }
    let fire_at = jobj(fire_at_entries);
    let enum__items = vec![jstr("scheduled"), jstr("triggered")];
    proof {
        assert(enum__items@.map_values(|x: Json| jview(x)) =~= seq![JView::Str("scheduled"@), JView::Str("triggered"@)]);
    }
    let enum_ = jarr(enum__items);
    let kind_entries = vec![jkv("description", jstr("scheduled = at a specific time, triggered = when a condition is met")), jkv("enum", enum_), jkv("type", jstr("string"))];
    proof {
        assert(kind_entries@.map_values(|e: (String, Json)| (e.0@, jview(e.1))) =~= seq![("description"@, JView::Str("scheduled = at a specific time, triggered = when a condition is met"@)), ("enum"@, enum_@), ("type"@, JView::Str("string"@))]);
    }
    let kind = jobj(kind_entries);
    let person_entries = vec![jkv("description", jstr("Person ID this intent relates to")), jkv("type", jstr("string"))];
    proof {
        assert(person_entries@.map_values(|e: (String, Json)| (e.0@, jview(e.1))) =~= seq![("description"@, JView::Str("Person ID this intent relates to"@)), ("type"@, JView::Str("string"@))]);
    }
    let person = jobj(person_entries);
    let task_entries = vec![jkv("description", jstr("What to do when the intent fires")), jkv("type", jstr("string"))];
    proof {
        assert(task_entries@.map_values(|e: (String, Json)| (e.0@, jview(e.1))) =~= seq![("description"@, JView::Str("What to do when the intent fires"@)), ("type"@, JView::Str("string"@))]);
    }
    let task = jobj(task_entries);
    let properties_entries = vec![jkv("condition", condition), jkv("conversation", conversation), jkv("fire_at", fire_at), jkv("kind", kind), jkv("person", person), jkv("task", task)];
    proof {
        assert(properties_entries@.map_values(|e: (String, Json)| (e.0@, jview(e.1))) =~= seq![("condition"@, condition@), ("conversation"@, conversation@), ("fire_at"@, fire_at@), ("kind"@, kind@), ("person"@, person@), ("task"@, task@)]);
    }
    let properties = jobj(properties_entries);
    let required_items = vec![jstr("task"), jstr("kind")];
    proof {
        assert(required_items@.map_values(|x: Json| jview(x)) =~= seq![JView::Str("task"@), JView::Str("kind"@)]);
    }
    let required = jarr(required_items);
    let schema_entries = vec![jkv("properties", properties), jkv("required", required), jkv("type", jstr("object"))];
    proof {
        assert(schema_entries@.map_values(|e: (String, Json)| (e.0@, jview(e.1))) =~= seq![("properties"@, properties@), ("required"@, required@), ("type"@, JView::Str("object"@))]);
    }
    let schema = jobj(schema_entries);
    schema
}

/// The schema of `forget_memory`'s arguments.
pub open spec fn forget_memory_schema() -> JView {
    JView::Object(
        seq![
            ("properties"@, JView::Object(
                seq![
                    ("memory_id"@, JView::Object(
                        seq![
                            ("description"@, JView::Str("ID of the memory to forget"@)),
                            ("type"@, JView::Str("string"@)),
                        ],
                    )),
                ],
            )),
            ("required"@, JView::Array(seq![JView::Str("memory_id"@)])),
            ("type"@, JView::Str("object"@)),
        ],
    )
}

fn forget_memory_parameters() -> (j: Json)
    ensures
        j@ == forget_memory_schema(),
{
    let memory_id_entries = vec![jkv("description", jstr("ID of the memory to forget")), jkv("type", jstr("string"))];
    proof {
        assert(memory_id_entries@.map_values(|e: (String, Json)| (e.0@, jview(e.1))) =~= seq![("description"@, JView::Str("ID of the memory to forget"@)), ("type"@, JView::Str("string"@))]);
    }
    let memory_id = jobj(memory_id_entries);
    let properties_entries = vec![jkv("memory_id", memory_id)];
    proof {
        assert(properties_entries@.map_values(|e: (String, Json)| (e.0@, jview(e.1))) =~= seq![("memory_id"@, memory_id@)]);
    }
    let properties = jobj(properties_entries);
    let required_items = vec![jstr("memory_id")];
    proof {
        assert(required_items@.map_values(|x: Json| jview(x)) =~= seq![JView::Str("memory_id"@)]);
    }
    let required = jarr(required_items);
    let schema_entries = vec![jkv("properties", properties), jkv("required", required), jkv("type", jstr("object"))];
    proof {
        assert(schema_entries@.map_values(|e: (String, Json)| (e.0@, jview(e.1))) =~= seq![("properties"@, properties@), ("required"@, required@), ("type"@, JView::Str("object"@))]);
    }
    let schema = jobj(schema_entries);
    schema
}

/// The schema of `read_messages`'s arguments.
pub open spec fn read_messages_schema() -> JView {
    JView::Object(
        seq![
            ("properties"@, JView::Object(
                seq![
                    ("before"@, JView::Object(
                        seq![
                            ("description"@, JView::Str("Unix timestamp. Only return messages before this time. Use to page backwards through history."@)),
                            ("type"@, JView::Str("integer"@)),
                        ],
                    )),
                    ("conversation"@, JView::Object(
                        seq![
                            ("description"@, JView::Str("Conversation ID. Defaults to current conversation."@)),
                            ("type"@, JView::Str("string"@)),
                        ],
                    )),
                    ("limit"@, JView::Object(
                        seq![
                            ("default"@, JView::Number(JsonNumber { micros: 10000000, integral: true })),
                            ("description"@, JView::Str("Max messages to return (default 10)"@)),
                            ("type"@, JView::Str("integer"@)),
                        ],
                    )),
                ],
            )),
            ("type"@, JView::Str("object"@)),
        ],
    )
}

fn read_messages_parameters() -> (j: Json)
    ensures
        j@ == read_messages_schema(),
{
    let before_entries = vec![jkv("description", jstr("Unix timestamp. Only return messages before this time. Use to page backwards through history.")), jkv("type", jstr("integer"))];
    proof {
        assert(before_entries@.map_values(|e: (String, Json)| (e.0@, jview(e.1))) =~= seq![("description"@, JView::Str("Unix timestamp. Only return messages before this time. Use to page backwards through history."@)), ("type"@, JView::Str("integer"@))]);
    }
    let before = jobj(before_entries);
    let conversation_entries = vec![jkv("description", jstr("Conversation ID. Defaults to current conversation.")), jkv("type", jstr("string"))];
    proof {
        assert(conversation_entries@.map_values(|e: (String, Json)| (e.0@, jview(e.1))) =~= seq![("description"@, JView::Str("Conversation ID. Defaults to current conversation."@)), ("type"@, JView::Str("string"@))]);
    }
    let conversation = jobj(conversation_entries);
    let limit_entries = vec![jkv("default", jint(10)), jkv("description", jstr("Max messages to return (default 10)")), jkv("type", jstr("integer"))];
    proof {
        assert(limit_entries@.map_values(|e: (String, Json)| (e.0@, jview(e.1))) =~= seq![("default"@, JView::Number(JsonNumber { micros: 10000000, integral: true })), ("description"@, JView::Str("Max messages to return (default 10)"@)), ("type"@, JView::Str("integer"@))]);
    }
    let limit = jobj(limit_entries);
    let properties_entries = vec![jkv("before", before), jkv("conversation", conversation), jkv("limit", limit)];
    proof {
        assert(properties_entries@.map_values(|e: (String, Json)| (e.0@, jview(e.1))) =~= seq![("before"@, before@), ("conversation"@, conversation@), ("limit"@, limit@)]);
    }
    let properties = jobj(properties_entries);
    let schema_entries = vec![jkv("properties", properties), jkv("type", jstr("object"))];
    proof {
        assert(schema_entries@.map_values(|e: (String, Json)| (e.0@, jview(e.1))) =~= seq![("properties"@, properties@), ("type"@, JView::Str("object"@))]);
    }
    let schema = jobj(schema_entries);
    schema
}

/// The schema of `start_composing`'s arguments.
pub open spec fn start_composing_schema() -> JView {
    JView::Object(
        seq![
            ("properties"@, JView::Object(
                seq![
                    ("conversation"@, JView::Object(
                        seq![
                            ("description"@, JView::Str("Conversation ID to signal composing in. Defaults to current conversation."@)),
                            ("type"@, JView::Str("string"@)),
                        ],
                    )),
                ],
            )),
            ("type"@, JView::Str("object"@)),
        ],
    )
}

fn start_composing_parameters() -> (j: Json)
    ensures
        j@ == start_composing_schema(),
{
    let conversation_entries = vec![jkv("description", jstr("Conversation ID to signal composing in. Defaults to current conversation.")), jkv("type", jstr("string"))];
    proof {
        assert(conversation_entries@.map_values(|e: (String, Json)| (e.0@, jview(e.1))) =~= seq![("description"@, JView::Str("Conversation ID to signal composing in. Defaults to current conversation."@)), ("type"@, JView::Str("string"@))]);
    }
    let conversation = jobj(conversation_entries);
    let properties_entries = vec![jkv("conversation", conversation)];
    proof {
        assert(properties_entries@.map_values(|e: (String, Json)| (e.0@, jview(e.1))) =~= seq![("conversation"@, conversation@)]);
    }
    let properties = jobj(properties_entries);
    let schema_entries = vec![jkv("properties", properties), jkv("type", jstr("object"))];
    proof {
        assert(schema_entries@.map_values(|e: (String, Json)| (e.0@, jview(e.1))) =~= seq![("properties"@, properties@), ("type"@, JView::Str("object"@))]);
    }
    let schema = jobj(schema_entries);
    schema
}

/// The schema of `stop_composing`'s arguments.
pub open spec fn stop_composing_schema() -> JView {
    JView::Object(
        seq![
            ("properties"@, JView::Object(
                seq![
                    ("conversation"@, JView::Object(
                        seq![
                            ("description"@, JView::Str("Conversation ID to stop composing in. Defaults to current conversation."@)),
                            ("type"@, JView::Str("string"@)),
                        ],
                    )),
                ],
            )),
            ("type"@, JView::Str("object"@)),
        ],
    )
}

fn stop_composing_parameters() -> (j: Json)
    ensures
        j@ == stop_composing_schema(),
{
    let conversation_entries = vec![jkv("description", jstr("Conversation ID to stop composing in. Defaults to current conversation.")), jkv("type", jstr("string"))];
    proof {
        assert(conversation_entries@.map_values(|e: (String, Json)| (e.0@, jview(e.1))) =~= seq![("description"@, JView::Str("Conversation ID to stop composing in. Defaults to current conversation."@)), ("type"@, JView::Str("string"@))]);
    }
    let conversation = jobj(conversation_entries);
    let properties_entries = vec![jkv("conversation", conversation)];
    proof {
        assert(properties_entries@.map_values(|e: (String, Json)| (e.0@, jview(e.1))) =~= seq![("conversation"@, conversation@)]);
    }
    let properties = jobj(properties_entries);
    let schema_entries = vec![jkv("properties", properties), jkv("type", jstr("object"))];
    proof {
        assert(schema_entries@.map_values(|e: (String, Json)| (e.0@, jview(e.1))) =~= seq![("properties"@, properties@), ("type"@, JView::Str("object"@))]);
    }
    let schema = jobj(schema_entries);
    schema
}

/// The schema of `delete_intent`'s arguments.
pub open spec fn delete_intent_schema() -> JView {
    JView::Object(
        seq![
            ("properties"@, JView::Object(
                seq![
                    ("intent_id"@, JView::Object(
                        seq![
                            ("description"@, JView::Str("ID of the intent to cancel"@)),
                            ("type"@, JView::Str("string"@)),
                        ],
                    )),
                ],
            )),
            ("required"@, JView::Array(seq![JView::Str("intent_id"@)])),
            ("type"@, JView::Str("object"@)),
        ],
    )
}

fn delete_intent_parameters() -> (j: Json)
    ensures
        j@ == delete_intent_schema(),
{
    let intent_id_entries = vec![jkv("description", jstr("ID of the intent to cancel")), jkv("type", jstr("string"))];
    proof {
        assert(intent_id_entries@.map_values(|e: (String, Json)| (e.0@, jview(e.1))) =~= seq![("description"@, JView::Str("ID of the intent to cancel"@)), ("type"@, JView::Str("string"@))]);
    }
    let intent_id = jobj(intent_id_entries);
    let properties_entries = vec![jkv("intent_id", intent_id)];
    proof {
        assert(properties_entries@.map_values(|e: (String, Json)| (e.0@, jview(e.1))) =~= seq![("intent_id"@, intent_id@)]);
    }
    let properties = jobj(properties_entries);
    let required_items = vec![jstr("intent_id")];
    proof {
        assert(required_items@.map_values(|x: Json| jview(x)) =~= seq![JView::Str("intent_id"@)]);
    }
    let required = jarr(required_items);
    let schema_entries = vec![jkv("properties", properties), jkv("required", required), jkv("type", jstr("object"))];
    proof {
        assert(schema_entries@.map_values(|e: (String, Json)| (e.0@, jview(e.1))) =~= seq![("properties"@, properties@), ("required"@, required@), ("type"@, JView::Str("object"@))]);
    }
    let schema = jobj(schema_entries);
    schema
}

/// The schema of `update_intent`'s arguments.
pub open spec fn update_intent_schema() -> JView {
    JView::Object(
        seq![
            ("properties"@, JView::Object(
                seq![
                    ("condition"@, JView::Object(
                        seq![
                            ("description"@, JView::Str("New condition for triggered intents"@)),
                            ("type"@, JView::Str("string"@)),
                        ],
                    )),
                    ("conversation"@, JView::Object(
                        seq![
                            ("description"@, JView::Str("New conversation ID"@)),
                            ("type"@, JView::Str("string"@)),
                        ],
                    )),
                    ("fire_at"@, JView::Object(
                        seq![
                            ("description"@, JView::Str("New fire time (unix timestamp) for scheduled intents"@)),
                            ("type"@, JView::Str("integer"@)),
                        ],
                    )),
                    ("intent_id"@, JView::Object(
                        seq![
                            ("description"@, JView::Str("ID of the intent to update"@)),
                            ("type"@, JView::Str("string"@)),
                        ],
                    )),
                    ("kind"@, JView::Object(
                        seq![
                            ("description"@, JView::Str("New intent kind"@)),
                            ("enum"@, JView::Array(seq![JView::Str("scheduled"@), JView::Str("triggered"@)])),
                            ("type"@, JView::Str("string"@)),
                        ],
                    )),
                    ("person"@, JView::Object(
                        seq![
                            ("description"@, JView::Str("New person ID"@)),
                            ("type"@, JView::Str("string"@)),
                        ],
                    )),
                    ("task"@, JView::Object(
                        seq![
                            ("description"@, JView::Str("New task description"@)),
                            ("type"@, JView::Str("string"@)),
                        ],
                    )),
                ],
            )),
            ("required"@, JView::Array(seq![JView::Str("intent_id"@)])),
            ("type"@, JView::Str("object"@)),
        ],
    )
}

fn update_intent_parameters() -> (j: Json)
    ensures
        j@ == update_intent_schema(),
{
    let condition_entries = vec![jkv("description", jstr("New condition for triggered intents")), jkv("type", jstr("string"))];
    proof {
        assert(condition_entries@.map_values(|e: (String, Json)| (e.0@, jview(e.1))) =~= seq![("description"@, JView::Str("New condition for triggered intents"@)), ("type"@, JView::Str("string"@))]);
    }
    let condition = jobj(condition_entries);
    let conversation_entries = vec![jkv("description", jstr("New conversation ID")), jkv("type", jstr("string"))];
    proof {
        assert(conversation_entries@.map_values(|e: (String, Json)| (e.0@, jview(e.1))) =~= seq![("description"@, JView::Str("New conversation ID"@)), ("type"@, JView::Str("string"@))]);
    }
    let conversation = jobj(conversation_entries);
    let fire_at_entries = vec![jkv("description", jstr("New fire time (unix timestamp) for scheduled intents")), jkv("type", jstr("integer"))];
    proof {
        assert(fire_at_entries@.map_values(|e: (String, Json)| (e.0@, jview(e.1))) =~= seq![("description"@, JView::Str("New fire time (unix timestamp) for scheduled intents"@)), ("type"@, JView::Str("integer"@))]);
    }
    let fire_at = jobj(fire_at_entries);
    let intent_id_entries = vec![jkv("description", jstr("ID of the intent to update")), jkv("type", jstr("string"))];
    proof {
        assert(intent_id_entries@.map_values(|e: (String, Json)| (e.0@, jview(e.1))) =~= seq![("description"@, JView::Str("ID of the intent to update"@)), ("type"@, JView::Str("string"@))]);
    }
    let intent_id = jobj(intent_id_entries);
    let enum__items = vec![jstr("scheduled"), jstr("triggered")];
    proof {
        assert(enum__items@.map_values(|x: Json| jview(x)) =~= seq![JView::Str("scheduled"@), JView::Str("triggered"@)]);
    }
    let enum_ = jarr(enum__items);
    let kind_entries = vec![jkv("description", jstr("New intent kind")), jkv("enum", enum_), jkv("type", jstr("string"))];
    proof {
        assert(kind_entries@.map_values(|e: (String, Json)| (e.0@, jview(e.1))) =~= seq![("description"@, JView::Str("New intent kind"@)), ("enum"@, enum_@), ("type"@, JView::Str("string"@))]);
    }
    let kind = jobj(kind_entries);
    let person_entries = vec![jkv("description", jstr("New person ID")), jkv("type", jstr("string"))];
    proof {
        assert(person_entries@.map_values(|e: (String, Json)| (e.0@, jview(e.1))) =~= seq![("description"@, JView::Str("New person ID"@)), ("type"@, JView::Str("string"@))]);
    }
    let person = jobj(person_entries);
    let task_entries = vec![jkv("description", jstr("New task description")), jkv("type", jstr("string"))];
    proof {
        assert(task_entries@.map_values(|e: (String, Json)| (e.0@, jview(e.1))) =~= seq![("description"@, JView::Str("New task description"@)), ("type"@, JView::Str("string"@))]);
    }
    let task = jobj(task_entries);
    let properties_entries = vec![jkv("condition", condition), jkv("conversation", conversation), jkv("fire_at", fire_at), jkv("intent_id", intent_id), jkv("kind", kind), jkv("person", person), jkv("task", task)];
    proof {
        assert(properties_entries@.map_values(|e: (String, Json)| (e.0@, jview(e.1))) =~= seq![("condition"@, condition@), ("conversation"@, conversation@), ("fire_at"@, fire_at@), ("intent_id"@, intent_id@), ("kind"@, kind@), ("person"@, person@), ("task"@, task@)]);
    }
    let properties = jobj(properties_entries);
    let required_items = vec![jstr("intent_id")];
    proof {
        assert(required_items@.map_values(|x: Json| jview(x)) =~= seq![JView::Str("intent_id"@)]);
    }
    let required = jarr(required_items);
    let schema_entries = vec![jkv("properties", properties), jkv("required", required), jkv("type", jstr("object"))];
    proof {
        assert(schema_entries@.map_values(|e: (String, Json)| (e.0@, jview(e.1))) =~= seq![("properties"@, properties@), ("required"@, required@), ("type"@, JView::Str("object"@))]);
    }
    let schema = jobj(schema_entries);
    schema
}

/// The action tool catalog: memory, messaging, contacts, reflection, intents and composing.
pub fn action_tools() -> (r: Vec<Tool>)
    ensures
        tool_names(r@) == seq!["recall_memories"@, "form_memory"@, "send_message"@, "lookup_contacts"@, "reflect"@, "note_thought"@, "create_intent"@, "forget_memory"@, "read_messages"@, "start_composing"@, "stop_composing"@, "delete_intent"@, "update_intent"@],
        r@[0].description@ == "Search your memories by topic or keywords."@,
        r@[0].parameters@ == recall_memories_schema(),
        r@[1].description@ == "Save something worth remembering. Your memory resets each session \u{2014} anything not saved is lost."@,
        r@[1].parameters@ == form_memory_schema(),
        r@[2].description@ == "Send a message. Omit platform_id and external_id to reply in the current conversation. Provide both to send to a specific destination (use lookup_contacts to find someone's contact methods)."@,
        r@[2].parameters@ == send_message_schema(),
        r@[3].description@ == "Look up how to reach a person. Returns their known contact methods across platforms."@,
        r@[3].parameters@ == lookup_contacts_schema(),
        r@[4].description@ == "Reflect on how this interaction changed you. Propose personality shifts."@,
        r@[4].parameters@ == reflect_schema(),
        r@[5].description@ == "Record an internal thought for your thought log."@,
        r@[5].parameters@ == note_thought_schema(),
        r@[6].description@ == "Schedule something for later. A reminder, follow-up, or triggered action."@,
        r@[6].parameters@ == create_intent_schema(),
        r@[7].description@ == "Remove a memory that's no longer relevant."@,
        r@[7].parameters@ == forget_memory_schema(),
        r@[8].description@ == "Read messages from a conversation. Use to access older history beyond what's in your current context."@,
        r@[8].parameters@ == read_messages_schema(),
        r@[9].description@ == "Signal that you are composing a response in a conversation. Shows activity to the other party."@,
        r@[9].parameters@ == start_composing_schema(),
        r@[10].description@ == "Signal that you stopped composing without sending. Use when you decide not to respond after starting to compose."@,
        r@[10].parameters@ == stop_composing_schema(),
        r@[11].description@ == "Cancel a scheduled or triggered intent."@,
        r@[11].parameters@ == delete_intent_schema(),
        r@[12].description@ == "Modify an existing intent. Atomic update \u{2014} safer than delete + create if the program crashes between operations."@,
        r@[12].parameters@ == update_intent_schema(),
{
    let r = vec![
        Tool {
            name: owned("recall_memories"),
            description: owned("Search your memories by topic or keywords."),
            parameters: recall_memories_parameters(),
        },
        Tool {
            name: owned("form_memory"),
            description: owned("Save something worth remembering. Your memory resets each session \u{2014} anything not saved is lost."),
            parameters: form_memory_parameters(),
        },
        Tool {
            name: owned("send_message"),
            description: owned("Send a message. Omit platform_id and external_id to reply in the current conversation. Provide both to send to a specific destination (use lookup_contacts to find someone's contact methods)."),
            parameters: send_message_parameters(),
        },
        Tool {
            name: owned("lookup_contacts"),
            description: owned("Look up how to reach a person. Returns their known contact methods across platforms."),
            parameters: lookup_contacts_parameters(),
        },
        Tool {
            name: owned("reflect"),
            description: owned("Reflect on how this interaction changed you. Propose personality shifts."),
            parameters: reflect_parameters(),
        },
        Tool {
            name: owned("note_thought"),
            description: owned("Record an internal thought for your thought log."),
            parameters: note_thought_parameters(),
        },
        Tool {
            name: owned("create_intent"),
            description: owned("Schedule something for later. A reminder, follow-up, or triggered action."),
            parameters: create_intent_parameters(),
        },
        Tool {
            name: owned("forget_memory"),
            description: owned("Remove a memory that's no longer relevant."),
            parameters: forget_memory_parameters(),
        },
        Tool {
            name: owned("read_messages"),
            description: owned("Read messages from a conversation. Use to access older history beyond what's in your current context."),
            parameters: read_messages_parameters(),
        },
        Tool {
            name: owned("start_composing"),
            description: owned("Signal that you are composing a response in a conversation. Shows activity to the other party."),
            parameters: start_composing_parameters(),
        },
        Tool {
            name: owned("stop_composing"),
            description: owned("Signal that you stopped composing without sending. Use when you decide not to respond after starting to compose."),
            parameters: stop_composing_parameters(),
        },
        Tool {
            name: owned("delete_intent"),
            description: owned("Cancel a scheduled or triggered intent."),
            parameters: delete_intent_parameters(),
        },
        Tool {
            name: owned("update_intent"),
            description: owned("Modify an existing intent. Atomic update \u{2014} safer than delete + create if the program crashes between operations."),
            parameters: update_intent_parameters(),
        },
    ];
    r
}


} // verus!
