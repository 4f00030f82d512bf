//! Messaging tools.
use vstd::prelude::*;
use crate::json::{Json, JView, JsonNumber, jarr, jint, jkv, jmicros, jobj, jstr, jview};
use crate::text::owned;
use crate::tools::{Tool, tool_names};

verus! {

/// The schema of `send_message`'s arguments.
pub open spec fn send_message_schema() -> JView {
    JView::Object(
        seq![
            ("properties"@, JView::Object(
                seq![
                    ("attachments"@, JView::Object(
                        seq![
                            ("description"@, JView::Str("Media attachments to send. Use media_asset_id for stored assets, especially WhatsApp."@)),
                            ("items"@, JView::Object(
                                seq![
                                    ("properties"@, JView::Object(
                                        seq![
                                            ("filename"@, JView::Object(
                                                seq![
                                                    ("description"@, JView::Str("Filename for file attachments"@)),
                                                    ("type"@, JView::Str("string"@)),
                                                ],
                                            )),
                                            ("media_asset_id"@, JView::Object(
                                                seq![
                                                    ("description"@, JView::Str("Stored media asset ID to attach"@)),
                                                    ("type"@, JView::Str("string"@)),
                                                ],
                                            )),
                                            ("media_type"@, JView::Object(
                                                seq![
                                                    ("description"@, JView::Str("Type of media attachment"@)),
                                                    ("enum"@, JView::Array(seq![JView::Str("image"@), JView::Str("video"@), JView::Str("audio"@), JView::Str("sticker"@), JView::Str("file"@)])),
                                                    ("type"@, JView::Str("string"@)),
                                                ],
                                            )),
                                            ("media_url"@, JView::Object(
                                                seq![
                                                    ("description"@, JView::Str("URL of media to attach for gateways that support URL attachments"@)),
                                                    ("type"@, JView::Str("string"@)),
                                                ],
                                            )),
                                            ("mime_type"@, JView::Object(
                                                seq![
                                                    ("description"@, JView::Str("MIME type of the media"@)),
                                                    ("type"@, JView::Str("string"@)),
                                                ],
                                            )),
                                        ],
                                    )),
                                    ("required"@, JView::Array(seq![JView::Str("media_type"@)])),
                                    ("type"@, JView::Str("object"@)),
                                ],
                            )),
                            ("type"@, JView::Str("array"@)),
                        ],
                    )),
                    ("content"@, JView::Object(
                        seq![
                            ("description"@, JView::Str("The message text"@)),
                            ("type"@, JView::Str("string"@)),
                        ],
                    )),
                    ("external_id"@, JView::Object(
                        seq![
                            ("description"@, JView::Str("Recipient's ID on that gateway. Must be paired with gateway_id."@)),
                            ("type"@, JView::Str("string"@)),
                        ],
                    )),
                    ("filename"@, JView::Object(
                        seq![
                            ("description"@, JView::Str("Filename for file attachments"@)),
                            ("type"@, JView::Str("string"@)),
                        ],
                    )),
                    ("gateway_id"@, JView::Object(
                        seq![
                            ("description"@, JView::Str("Gateway to send through (e.g. discord, telegram, whatsapp)"@)),
                            ("type"@, JView::Str("string"@)),
                        ],
                    )),
                    ("media_asset_id"@, JView::Object(
                        seq![
                            ("description"@, JView::Str("Stored media asset ID to attach. Required for WhatsApp media sends."@)),
                            ("type"@, JView::Str("string"@)),
                        ],
                    )),
                    ("media_type"@, JView::Object(
                        seq![
                            ("description"@, JView::Str("Type of media attachment"@)),
                            ("enum"@, JView::Array(seq![JView::Str("image"@), JView::Str("video"@), JView::Str("audio"@), JView::Str("sticker"@), JView::Str("file"@)])),
                            ("type"@, JView::Str("string"@)),
                        ],
                    )),
                    ("media_url"@, JView::Object(
                        seq![
                            ("description"@, JView::Str("URL of media to attach. Some gateways require media_asset_id instead."@)),
                            ("type"@, JView::Str("string"@)),
                        ],
                    )),
                    ("mime_type"@, JView::Object(
                        seq![
                            ("description"@, JView::Str("MIME type of the media (e.g. image/png, video/mp4)"@)),
                            ("type"@, JView::Str("string"@)),
                        ],
                    )),
                ],
            )),
            ("required"@, JView::Array(seq![JView::Str("content"@)])),
            ("type"@, JView::Str("object"@)),
        ],
    )
}

fn send_message_parameters() -> (j: Json)
    ensures
        j@ == send_message_schema(),
{
    let filename_entries = vec![jkv("description", jstr("Filename for file attachments")), jkv("type", jstr("string"))];
    proof {
        assert(filename_entries@.map_values(|e: (String, Json)| (e.0@, jview(e.1))) =~= seq![("description"@, JView::Str("Filename for file attachments"@)), ("type"@, JView::Str("string"@))]);
    }
    let filename = jobj(filename_entries);
    let media_asset_id_entries = vec![jkv("description", jstr("Stored media asset ID to attach")), jkv("type", jstr("string"))];
    proof {
        assert(media_asset_id_entries@.map_values(|e: (String, Json)| (e.0@, jview(e.1))) =~= seq![("description"@, JView::Str("Stored media asset ID to attach"@)), ("type"@, JView::Str("string"@))]);
    }
    let media_asset_id = jobj(media_asset_id_entries);
    let enum__items = vec![jstr("image"), jstr("video"), jstr("audio"), jstr("sticker"), jstr("file")];
    proof {
        assert(enum__items@.map_values(|x: Json| jview(x)) =~= seq![JView::Str("image"@), JView::Str("video"@), JView::Str("audio"@), JView::Str("sticker"@), JView::Str("file"@)]);
    }
    let enum_ = jarr(enum__items);
    let media_type_entries = vec![jkv("description", jstr("Type of media attachment")), jkv("enum", enum_), jkv("type", jstr("string"))];
    proof {
        assert(media_type_entries@.map_values(|e: (String, Json)| (e.0@, jview(e.1))) =~= seq![("description"@, JView::Str("Type of media attachment"@)), ("enum"@, enum_@), ("type"@, JView::Str("string"@))]);
    }
    let media_type = jobj(media_type_entries);
    let media_url_entries = vec![jkv("description", jstr("URL of media to attach for gateways that support URL attachments")), jkv("type", jstr("string"))];
    proof {
        assert(media_url_entries@.map_values(|e: (String, Json)| (e.0@, jview(e.1))) =~= seq![("description"@, JView::Str("URL of media to attach for gateways that support URL attachments"@)), ("type"@, JView::Str("string"@))]);
    }
    let media_url = jobj(media_url_entries);
    let mime_type_entries = vec![jkv("description", jstr("MIME type of the media")), jkv("type", jstr("string"))];
    proof {
        assert(mime_type_entries@.map_values(|e: (String, Json)| (e.0@, jview(e.1))) =~= seq![("description"@, JView::Str("MIME type of the media"@)), ("type"@, JView::Str("string"@))]);
    }
    let mime_type = jobj(mime_type_entries);
    let properties_entries = vec![jkv("filename", filename), jkv("media_asset_id", media_asset_id), jkv("media_type", media_type), jkv("media_url", media_url), jkv("mime_type", mime_type)];
    proof {
        assert(properties_entries@.map_values(|e: (String, Json)| (e.0@, jview(e.1))) =~= seq![("filename"@, filename@), ("media_asset_id"@, media_asset_id@), ("media_type"@, media_type@), ("media_url"@, media_url@), ("mime_type"@, mime_type@)]);
    }
    let properties = jobj(properties_entries);
    let required_items = vec![jstr("media_type")];
    proof {
        assert(required_items@.map_values(|x: Json| jview(x)) =~= seq![JView::Str("media_type"@)]);
    }
    let required = jarr(required_items);
    let items_entries = vec![jkv("properties", properties), jkv("required", required), jkv("type", jstr("object"))];
    proof {
        assert(items_entries@.map_values(|e: (String, Json)| (e.0@, jview(e.1))) =~= seq![("properties"@, properties@), ("required"@, required@), ("type"@, JView::Str("object"@))]);
    }
    let items = jobj(items_entries);
    let attachments_entries = vec![jkv("description", jstr("Media attachments to send. Use media_asset_id for stored assets, especially WhatsApp.")), jkv("items", items), jkv("type", jstr("array"))];
    proof {
        assert(attachments_entries@.map_values(|e: (String, Json)| (e.0@, jview(e.1))) =~= seq![("description"@, JView::Str("Media attachments to send. Use media_asset_id for stored assets, especially WhatsApp."@)), ("items"@, items@), ("type"@, JView::Str("array"@))]);
    }
    let attachments = jobj(attachments_entries);
    let content_entries = vec![jkv("description", jstr("The message text")), jkv("type", jstr("string"))];
    proof {
        assert(content_entries@.map_values(|e: (String, Json)| (e.0@, jview(e.1))) =~= seq![("description"@, JView::Str("The message text"@)), ("type"@, JView::Str("string"@))]);
    }
    let content = jobj(content_entries);
    let external_id_entries = vec![jkv("description", jstr("Recipient's ID on that gateway. Must be paired with gateway_id.")), jkv("type", jstr("string"))];
    proof {
        assert(external_id_entries@.map_values(|e: (String, Json)| (e.0@, jview(e.1))) =~= seq![("description"@, JView::Str("Recipient's ID on that gateway. Must be paired with gateway_id."@)), ("type"@, JView::Str("string"@))]);
    }
    let external_id = jobj(external_id_entries);
    let filename_2_entries = vec![jkv("description", jstr("Filename for file attachments")), jkv("type", jstr("string"))];
    proof {
        assert(filename_2_entries@.map_values(|e: (String, Json)| (e.0@, jview(e.1))) =~= seq![("description"@, JView::Str("Filename for file attachments"@)), ("type"@, JView::Str("string"@))]);
    }
    let filename_2 = jobj(filename_2_entries);
    let gateway_id_entries = vec![jkv("description", jstr("Gateway to send through (e.g. discord, telegram, whatsapp)")), jkv("type", jstr("string"))];
    proof {
        assert(gateway_id_entries@.map_values(|e: (String, Json)| (e.0@, jview(e.1))) =~= seq![("description"@, JView::Str("Gateway to send through (e.g. discord, telegram, whatsapp)"@)), ("type"@, JView::Str("string"@))]);
    }
    let gateway_id = jobj(gateway_id_entries);
    let media_asset_id_2_entries = vec![jkv("description", jstr("Stored media asset ID to attach. Required for WhatsApp media sends.")), jkv("type", jstr("string"))];
    proof {
        assert(media_asset_id_2_entries@.map_values(|e: (String, Json)| (e.0@, jview(e.1))) =~= seq![("description"@, JView::Str("Stored media asset ID to attach. Required for WhatsApp media sends."@)), ("type"@, JView::Str("string"@))]);
    }
    let media_asset_id_2 = jobj(media_asset_id_2_entries);
    let enum__2_items = vec![jstr("image"), jstr("video"), jstr("audio"), jstr("sticker"), jstr("file")];
    proof {
        assert(enum__2_items@.map_values(|x: Json| jview(x)) =~= seq![JView::Str("image"@), JView::Str("video"@), JView::Str("audio"@), JView::Str("sticker"@), JView::Str("file"@)]);
    }
    let enum__2 = jarr(enum__2_items);
    let media_type_2_entries = vec![jkv("description", jstr("Type of media attachment")), jkv("enum", enum__2), jkv("type", jstr("string"))];
    proof {
        assert(media_type_2_entries@.map_values(|e: (String, Json)| (e.0@, jview(e.1))) =~= seq![("description"@, JView::Str("Type of media attachment"@)), ("enum"@, enum__2@), ("type"@, JView::Str("string"@))]);
    }
    let media_type_2 = jobj(media_type_2_entries);
    let media_url_2_entries = vec![jkv("description", jstr("URL of media to attach. Some gateways require media_asset_id instead.")), jkv("type", jstr("string"))];
    proof {
        assert(media_url_2_entries@.map_values(|e: (String, Json)| (e.0@, jview(e.1))) =~= seq![("description"@, JView::Str("URL of media to attach. Some gateways require media_asset_id instead."@)), ("type"@, JView::Str("string"@))]);
    }
    let media_url_2 = jobj(media_url_2_entries);
    let mime_type_2_entries = vec![jkv("description", jstr("MIME type of the media (e.g. image/png, video/mp4)")), jkv("type", jstr("string"))];
    proof {
        assert(mime_type_2_entries@.map_values(|e: (String, Json)| (e.0@, jview(e.1))) =~= seq![("description"@, JView::Str("MIME type of the media (e.g. image/png, video/mp4)"@)), ("type"@, JView::Str("string"@))]);
    }
    let mime_type_2 = jobj(mime_type_2_entries);
    let properties_2_entries = vec![jkv("attachments", attachments), jkv("content", content), jkv("external_id", external_id), jkv("filename", filename_2), jkv("gateway_id", gateway_id), jkv("media_asset_id", media_asset_id_2), jkv("media_type", media_type_2), jkv("media_url", media_url_2), jkv("mime_type", mime_type_2)];
    proof {
        assert(properties_2_entries@.map_values(|e: (String, Json)| (e.0@, jview(e.1))) =~= seq![("attachments"@, attachments@), ("content"@, content@), ("external_id"@, external_id@), ("filename"@, filename_2@), ("gateway_id"@, gateway_id@), ("media_asset_id"@, media_asset_id_2@), ("media_type"@, media_type_2@), ("media_url"@, media_url_2@), ("mime_type"@, mime_type_2@)]);
    }
    let properties_2 = jobj(properties_2_entries);
    let required_2_items = vec![jstr("content")];
    proof {
        assert(required_2_items@.map_values(|x: Json| jview(x)) =~= seq![JView::Str("content"@)]);
    }
    let required_2 = jarr(required_2_items);
    let schema_entries = vec![jkv("properties", properties_2), jkv("required", required_2), jkv("type", jstr("object"))];
    proof {
        assert(schema_entries@.map_values(|e: (String, Json)| (e.0@, jview(e.1))) =~= seq![("properties"@, properties_2@), ("required"@, required_2@), ("type"@, JView::Str("object"@))]);
    }
    let schema = jobj(schema_entries);
    schema
}

/// The schema of `read_messages`'s arguments.
pub open spec fn read_messages_schema() -> JView {
    JView::Object(
        seq![
            ("properties"@, JView::Object(
                seq![
                    ("before"@, JView::Object(
                        seq![
                            ("description"@, JView::Str("Unix timestamp. Only return messages before this time. Use to page backwards through history."@)),
                            ("type"@, JView::Str("integer"@)),
                        ],
                    )),
                    ("conversation"@, JView::Object(
                        seq![
                            ("description"@, JView::Str("Conversation ID. Defaults to current conversation."@)),
                            ("type"@, JView::Str("string"@)),
                        ],
                    )),
                    ("limit"@, JView::Object(
                        seq![
                            ("default"@, JView::Number(JsonNumber { micros: 10000000, integral: true })),
                            ("description"@, JView::Str("Max messages to return (default 10)"@)),
                            ("type"@, JView::Str("integer"@)),
                        ],
                    )),
                ],
            )),
            ("type"@, JView::Str("object"@)),
        ],
    )
}

fn read_messages_parameters() -> (j: Json)
    ensures
        j@ == read_messages_schema(),
{
    let before_entries = vec![jkv("description", jstr("Unix timestamp. Only return messages before this time. Use to page backwards through history.")), jkv("type", jstr("integer"))];
    proof {
        assert(before_entries@.map_values(|e: (String, Json)| (e.0@, jview(e.1))) =~= seq![("description"@, JView::Str("Unix timestamp. Only return messages before this time. Use to page backwards through history."@)), ("type"@, JView::Str("integer"@))]);
    }
    let before = jobj(before_entries);
    let conversation_entries = vec![jkv("description", jstr("Conversation ID. Defaults to current conversation.")), jkv("type", jstr("string"))];
    proof {
        assert(conversation_entries@.map_values(|e: (String, Json)| (e.0@, jview(e.1))) =~= seq![("description"@, JView::Str("Conversation ID. Defaults to current conversation."@)), ("type"@, JView::Str("string"@))]);
    }
    let conversation = jobj(conversation_entries);
    let limit_entries = vec![jkv("default", jint(10)), jkv("description", jstr("Max messages to return (default 10)")), jkv("type", jstr("integer"))];
    proof {
        assert(limit_entries@.map_values(|e: (String, Json)| (e.0@, jview(e.1))) =~= seq![("default"@, JView::Number(JsonNumber { micros: 10000000, integral: true })), ("description"@, JView::Str("Max messages to return (default 10)"@)), ("type"@, JView::Str("integer"@))]);
    }
    let limit = jobj(limit_entries);
    let properties_entries = vec![jkv("before", before), jkv("conversation", conversation), jkv("limit", limit)];
    proof {
        assert(properties_entries@.map_values(|e: (String, Json)| (e.0@, jview(e.1))) =~= seq![("before"@, before@), ("conversation"@, conversation@), ("limit"@, limit@)]);
    }
    let properties = jobj(properties_entries);
    let schema_entries = vec![jkv("properties", properties), jkv("type", jstr("object"))];
    proof {
        assert(schema_entries@.map_values(|e: (String, Json)| (e.0@, jview(e.1))) =~= seq![("properties"@, properties@), ("type"@, JView::Str("object"@))]);
    }
    let schema = jobj(schema_entries);
    schema
}

/// The schema of `update_conversation_summary`'s arguments.
pub open spec fn update_conversation_summary_schema() -> JView {
    JView::Object(
        seq![
            ("properties"@, JView::Object(
                seq![
                    ("conversation"@, JView::Object(
                        seq![
                            ("description"@, JView::Str("Conversation ID. Defaults to current conversation."@)),
                            ("type"@, JView::Str("string"@)),
                        ],
                    )),
                    ("covered_message_ids"@, JView::Object(
                        seq![
                            ("description"@, JView::Str("Message ids covered by this summary. Use the top-level message_id values returned by read_messages. Defaults to the current action's messages."@)),
                            ("items"@, JView::Object(
                                seq![
                                    ("type"@, JView::Str("string"@)),
                                ],
                            )),
                            ("type"@, JView::Str("array"@)),
                        ],
                    )),
                    ("summary"@, JView::Object(
                        seq![
                            ("description"@, JView::Str("Compact summary preserving important facts, decisions, open questions, commitments, emotional tone, and last visible response."@)),
                            ("type"@, JView::Str("string"@)),
                        ],
                    )),
                ],
            )),
            ("required"@, JView::Array(seq![JView::Str("summary"@)])),
            ("type"@, JView::Str("object"@)),
        ],
    )
}

fn update_conversation_summary_parameters() -> (j: Json)
    ensures
        j@ == update_conversation_summary_schema(),
{
    let conversation_entries = vec![jkv("description", jstr("Conversation ID. Defaults to current conversation.")), jkv("type", jstr("string"))];
    proof {
        assert(conversation_entries@.map_values(|e: (String, Json)| (e.0@, jview(e.1))) =~= seq![("description"@, JView::Str("Conversation ID. Defaults to current conversation."@)), ("type"@, JView::Str("string"@))]);
    }
    let conversation = jobj(conversation_entries);
    let items_entries = vec![jkv("type", jstr("string"))];
    proof {
        assert(items_entries@.map_values(|e: (String, Json)| (e.0@, jview(e.1))) =~= seq![("type"@, JView::Str("string"@))]);
    }
    let items = jobj(items_entries);
    let covered_message_ids_entries = vec![jkv("description", jstr("Message ids covered by this summary. Use the top-level message_id values returned by read_messages. Defaults to the current action's messages.")), jkv("items", items), jkv("type", jstr("array"))];
    proof {
        assert(covered_message_ids_entries@.map_values(|e: (String, Json)| (e.0@, jview(e.1))) =~= seq![("description"@, JView::Str("Message ids covered by this summary. Use the top-level message_id values returned by read_messages. Defaults to the current action's messages."@)), ("items"@, items@), ("type"@, JView::Str("array"@))]);
    }
    let covered_message_ids = jobj(covered_message_ids_entries);
    let summary_entries = vec![jkv("description", jstr("Compact summary preserving important facts, decisions, open questions, commitments, emotional tone, and last visible response.")), jkv("type", jstr("string"))];
    proof {
        assert(summary_entries@.map_values(|e: (String, Json)| (e.0@, jview(e.1))) =~= seq![("description"@, JView::Str("Compact summary preserving important facts, decisions, open questions, commitments, emotional tone, and last visible response."@)), ("type"@, JView::Str("string"@))]);
    }
    let summary = jobj(summary_entries);
    let properties_entries = vec![jkv("conversation", conversation), jkv("covered_message_ids", covered_message_ids), jkv("summary", summary)];
    proof {
        assert(properties_entries@.map_values(|e: (String, Json)| (e.0@, jview(e.1))) =~= seq![("conversation"@, conversation@), ("covered_message_ids"@, covered_message_ids@), ("summary"@, summary@)]);
    }
    let properties = jobj(properties_entries);
    let required_items = vec![jstr("summary")];
    proof {
        assert(required_items@.map_values(|x: Json| jview(x)) =~= seq![JView::Str("summary"@)]);
    }
    let required = jarr(required_items);
    let schema_entries = vec![jkv("properties", properties), jkv("required", required), jkv("type", jstr("object"))];
    proof {
        assert(schema_entries@.map_values(|e: (String, Json)| (e.0@, jview(e.1))) =~= seq![("properties"@, properties@), ("required"@, required@), ("type"@, JView::Str("object"@))]);
    }
    let schema = jobj(schema_entries);
    schema
}

/// Tools that send and read messages and keep conversation summaries.
pub fn tools() -> (r: Vec<Tool>)
    ensures
        tool_names(r@) == seq!["send_message"@, "read_messages"@, "update_conversation_summary"@],
        r@[0].description@ == "Send a message. Omit gateway_id and external_id to reply in the current conversation. Provide both to send to a specific destination (use get_person with include_identities=true to find allowed gateway identities)."@,
        r@[0].parameters@ == send_message_schema(),
        r@[1].description@ == "Read messages from a conversation. Use to access older history beyond what's in your current context. Internal background actions may omit conversation to read a bounded recent-conversation view."@,
        r@[1].parameters@ == read_messages_schema(),
        r@[2].description@ == "Update the rolling summary for the current conversation. Use during review or consolidation after reading enough recent messages."@,
        r@[2].parameters@ == update_conversation_summary_schema(),
{
    let r = vec![
        Tool {
            name: owned("send_message"),
            description: owned("Send a message. Omit gateway_id and external_id to reply in the current conversation. Provide both to send to a specific destination (use get_person with include_identities=true to find allowed gateway identities)."),
            parameters: send_message_parameters(),
        },
        Tool {
            name: owned("read_messages"),
            description: owned("Read messages from a conversation. Use to access older history beyond what's in your current context. Internal background actions may omit conversation to read a bounded recent-conversation view."),
            parameters: read_messages_parameters(),
        },
        Tool {
            name: owned("update_conversation_summary"),
            description: owned("Update the rolling summary for the current conversation. Use during review or consolidation after reading enough recent messages."),
            parameters: update_conversation_summary_parameters(),
        },
    ];
    r
}

} // verus!
