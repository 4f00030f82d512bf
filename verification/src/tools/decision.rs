//! Decisions the mind takes on an event.
use vstd::prelude::*;
use crate::json::{Json, JView, JsonNumber, jarr, jint, jkv, jmicros, jobj, jstr, jview};
use crate::text::{owned, str_eq};
use crate::tools::{Tool, tool_names};

verus! {

/// The schema of `respond`'s arguments.
pub open spec fn respond_schema() -> JView {
    JView::Object(
        seq![
            ("properties"@, JView::Object(
                seq![
                    ("reason"@, JView::Object(
                        seq![
                            ("description"@, JView::Str("Why you decided to engage"@)),
                            ("type"@, JView::Str("string"@)),
                        ],
                    )),
                    ("style_directive"@, JView::Object(
                        seq![
                            ("description"@, JView::Str("Brief guidance on this person's tone, length, formality, pace, and language habits so responses can adapt without copying every quirk. Analyze their actual messages."@)),
                            ("type"@, JView::Str("string"@)),
                        ],
                    )),
                ],
            )),
            ("required"@, JView::Array(seq![JView::Str("reason"@)])),
            ("type"@, JView::Str("object"@)),
        ],
    )
}

fn respond_parameters() -> (j: Json)
    ensures
        j@ == respond_schema(),
{
    let reason_entries = vec![jkv("description", jstr("Why you decided to engage")), jkv("type", jstr("string"))];
    proof {
        assert(reason_entries@.map_values(|e: (String, Json)| (e.0@, jview(e.1))) =~= seq![("description"@, JView::Str("Why you decided to engage"@)), ("type"@, JView::Str("string"@))]);
    }
    let reason = jobj(reason_entries);
    let style_directive_entries = vec![jkv("description", jstr("Brief guidance on this person's tone, length, formality, pace, and language habits so responses can adapt without copying every quirk. Analyze their actual messages.")), jkv("type", jstr("string"))];
    proof {
        assert(style_directive_entries@.map_values(|e: (String, Json)| (e.0@, jview(e.1))) =~= seq![("description"@, JView::Str("Brief guidance on this person's tone, length, formality, pace, and language habits so responses can adapt without copying every quirk. Analyze their actual messages."@)), ("type"@, JView::Str("string"@))]);
    }
    let style_directive = jobj(style_directive_entries);
    let properties_entries = vec![jkv("reason", reason), jkv("style_directive", style_directive)];
    proof {
        assert(properties_entries@.map_values(|e: (String, Json)| (e.0@, jview(e.1))) =~= seq![("reason"@, reason@), ("style_directive"@, style_directive@)]);
    }
    let properties = jobj(properties_entries);
    let required_items = vec![jstr("reason")];
    proof {
        assert(required_items@.map_values(|x: Json| jview(x)) =~= seq![JView::Str("reason"@)]);
    }
    let required = jarr(required_items);
    let schema_entries = vec![jkv("properties", properties), jkv("required", required), jkv("type", jstr("object"))];
    proof {
        assert(schema_entries@.map_values(|e: (String, Json)| (e.0@, jview(e.1))) =~= seq![("properties"@, properties@), ("required"@, required@), ("type"@, JView::Str("object"@))]);
    }
    let schema = jobj(schema_entries);
    schema
}

/// The schema of `drop`'s arguments.
pub open spec fn drop_schema() -> JView {
    JView::Object(
        seq![
            ("properties"@, JView::Object(
                seq![
                    ("reason"@, JView::Object(
                        seq![
                            ("description"@, JView::Str("Why you decided to ignore"@)),
                            ("type"@, JView::Str("string"@)),
                        ],
                    )),
                ],
            )),
            ("required"@, JView::Array(seq![JView::Str("reason"@)])),
            ("type"@, JView::Str("object"@)),
        ],
    )
}

fn drop_parameters() -> (j: Json)
    ensures
        j@ == drop_schema(),
{
    let reason_entries = vec![jkv("description", jstr("Why you decided to ignore")), jkv("type", jstr("string"))];
    proof {
        assert(reason_entries@.map_values(|e: (String, Json)| (e.0@, jview(e.1))) =~= seq![("description"@, JView::Str("Why you decided to ignore"@)), ("type"@, JView::Str("string"@))]);
    }
    let reason = jobj(reason_entries);
    let properties_entries = vec![jkv("reason", reason)];
    proof {
        assert(properties_entries@.map_values(|e: (String, Json)| (e.0@, jview(e.1))) =~= seq![("reason"@, reason@)]);
    }
    let properties = jobj(properties_entries);
    let required_items = vec![jstr("reason")];
    proof {
        assert(required_items@.map_values(|x: Json| jview(x)) =~= seq![JView::Str("reason"@)]);
    }
    let required = jarr(required_items);
    let schema_entries = vec![jkv("properties", properties), jkv("required", required), jkv("type", jstr("object"))];
    proof {
        assert(schema_entries@.map_values(|e: (String, Json)| (e.0@, jview(e.1))) =~= seq![("properties"@, properties@), ("required"@, required@), ("type"@, JView::Str("object"@))]);
    }
    let schema = jobj(schema_entries);
    schema
}

/// The schema of `defer`'s arguments.
pub open spec fn defer_schema() -> JView {
    JView::Object(
        seq![
            ("properties"@, JView::Object(
                seq![
                    ("delay_secs"@, JView::Object(
                        seq![
                            ("default"@, JView::Number(JsonNumber { micros: 30000000, integral: true })),
                            ("description"@, JView::Str("How long to wait before reconsidering, from 5 to 300 seconds. Defaults to 30."@)),
                            ("type"@, JView::Str("integer"@)),
                        ],
                    )),
                    ("reason"@, JView::Object(
                        seq![
                            ("description"@, JView::Str("Why you decided to defer"@)),
                            ("type"@, JView::Str("string"@)),
                        ],
                    )),
                ],
            )),
            ("required"@, JView::Array(seq![JView::Str("reason"@)])),
            ("type"@, JView::Str("object"@)),
        ],
    )
}

fn defer_parameters() -> (j: Json)
    ensures
        j@ == defer_schema(),
{
    let delay_secs_entries = vec![jkv("default", jint(30)), jkv("description", jstr("How long to wait before reconsidering, from 5 to 300 seconds. Defaults to 30.")), jkv("type", jstr("integer"))];
    proof {
        assert(delay_secs_entries@.map_values(|e: (String, Json)| (e.0@, jview(e.1))) =~= seq![("default"@, JView::Number(JsonNumber { micros: 30000000, integral: true })), ("description"@, JView::Str("How long to wait before reconsidering, from 5 to 300 seconds. Defaults to 30."@)), ("type"@, JView::Str("integer"@))]);
    }
    let delay_secs = jobj(delay_secs_entries);
    let reason_entries = vec![jkv("description", jstr("Why you decided to defer")), jkv("type", jstr("string"))];
    proof {
        assert(reason_entries@.map_values(|e: (String, Json)| (e.0@, jview(e.1))) =~= seq![("description"@, JView::Str("Why you decided to defer"@)), ("type"@, JView::Str("string"@))]);
    }
    let reason = jobj(reason_entries);
    let properties_entries = vec![jkv("delay_secs", delay_secs), jkv("reason", reason)];
    proof {
        assert(properties_entries@.map_values(|e: (String, Json)| (e.0@, jview(e.1))) =~= seq![("delay_secs"@, delay_secs@), ("reason"@, reason@)]);
    }
    let properties = jobj(properties_entries);
    let required_items = vec![jstr("reason")];
    proof {
        assert(required_items@.map_values(|x: Json| jview(x)) =~= seq![JView::Str("reason"@)]);
    }
    let required = jarr(required_items);
    let schema_entries = vec![jkv("properties", properties), jkv("required", required), jkv("type", jstr("object"))];
    proof {
        assert(schema_entries@.map_values(|e: (String, Json)| (e.0@, jview(e.1))) =~= seq![("properties"@, properties@), ("required"@, required@), ("type"@, JView::Str("object"@))]);
    }
    let schema = jobj(schema_entries);
    schema
}

/// The mind's decision tools: respond, drop or defer.
pub fn tools() -> (r: Vec<Tool>)
    ensures
        tool_names(r@) == seq!["respond"@, "drop"@, "defer"@],
        r@[0].description@ == "Engage with this event. Start an action session to handle it."@,
        r@[0].parameters@ == respond_schema(),
        r@[1].description@ == "Ignore this event. Not worth engaging with right now."@,
        r@[1].parameters@ == drop_schema(),
        r@[2].description@ == "Hold off on this event. Something else takes priority, or the timing isn't right."@,
        r@[2].parameters@ == defer_schema(),
{
    let r = vec![
        Tool {
            name: owned("respond"),
            description: owned("Engage with this event. Start an action session to handle it."),
            parameters: respond_parameters(),
        },
        Tool {
            name: owned("drop"),
            description: owned("Ignore this event. Not worth engaging with right now."),
            parameters: drop_parameters(),
        },
        Tool {
            name: owned("defer"),
            description: owned("Hold off on this event. Something else takes priority, or the timing isn't right."),
            parameters: defer_parameters(),
        },
    ];
    r
}


/// What the mind decided about an event.
pub enum MindVerdict {
    Respond { style_directive: Option<String> },
    Drop,
    Defer { delay_secs: u64 },
}

pub open spec fn clamp_u64(v: u64, lo: u64, hi: u64) -> u64 {
    if v < lo {
        lo
    } else if v > hi {
        hi
    } else {
        v
    }
}

/// The deferral delay: `delay_secs` (30 when absent), kept within 5 to 300.
pub open spec fn defer_delay(args: Json) -> u64 {
    clamp_u64(
        match args.u64_at("delay_secs"@) {
            Some(d) => d,
            None => 30,
        },
        5,
        300,
    )
}

/// The verdict of a decision tool call.
pub open spec fn verdict_for(r: Option<MindVerdict>, name: Seq<char>, args: Json) -> bool {
    if name == "respond"@ {
        match r {
            Some(MindVerdict::Respond { style_directive }) => match style_directive {
                Some(s) => args.str_at("style_directive"@) == Some(s@),
                None => args.str_at("style_directive"@) is None,
            },
            _ => false,
        }
    } else if name == "drop"@ {
        r matches Some(MindVerdict::Drop)
    } else if name == "defer"@ {
        match r {
            Some(MindVerdict::Defer { delay_secs }) => delay_secs == defer_delay(args),
            _ => false,
        }
    } else {
        r is None
    }
}

/// Turns a decision tool call into a verdict; other tool names give `None`.
pub fn execute(name: &str, args: &Json) -> (r: Option<MindVerdict>)
    ensures
        verdict_for(r, name@, *args),
{
    if str_eq(name, "respond") {
        Some(MindVerdict::Respond { style_directive: args.str_field("style_directive") })
    } else if str_eq(name, "drop") {
        Some(MindVerdict::Drop)
    } else if str_eq(name, "defer") {
        let d = match args.u64_field("delay_secs") {
            Some(d) => d,
            None => 30,
        };
        let delay_secs = if d < 5 {
            5
        } else if d > 300 {
            300
        } else {
            d
        };
        Some(MindVerdict::Defer { delay_secs })
    } else {
        None
    }
}

} // verus!
