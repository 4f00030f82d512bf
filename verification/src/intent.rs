//! Intents: what the intent tools create and change, and the approval
//! request a sensitive proactive intent waits on.
use vstd::prelude::*;
use crate::json::Json;
use crate::memory::{opt_view, trimmed_at};
use crate::model::{Authority, InboundMessage};
use crate::text::{append_str, is_blank, join, joined, owned, str_eq, trim, trim_seq};
use crate::tools::permission::{intent_requires_approval, intent_requires_chosen_person_approval};

verus! {

/// Whether an intent may fire or waits for the chosen person.
#[derive(PartialEq, Eq, Structural, Clone, Copy, Debug)]
pub enum IntentStatus {
    Active,
    PendingApproval,
}

impl IntentStatus {
    pub open spec fn spec_as_str(self) -> Seq<char> {
        match self {
            IntentStatus::Active => "active"@,
            IntentStatus::PendingApproval => "pending_approval"@,
        }
    }

    pub fn as_str(&self) -> (r: &'static str)
        ensures
            r@ == self.spec_as_str(),
    {
        match self {
            IntentStatus::Active => "active",
            IntentStatus::PendingApproval => "pending_approval",
        }
    }
}

/// An intent ready to store, without its id and timestamps.
pub struct IntentDraft {
    /// "scheduled" or "triggered".
    pub kind: String,
    pub status: IntentStatus,
    pub task: String,
    pub person: Option<String>,
    pub profile: Option<String>,
    pub conversation: Option<String>,
    pub fire_at: Option<i64>,
    pub condition: Option<String>,
    pub recurrence: Option<String>,
    pub priority: u8,
    pub dedupe_key: Option<String>,
    pub source_memory: Option<String>,
    /// The action that created the intent.
    pub source_action: Option<String>,
    pub chosen_person_approved: bool,
}

/// Why an intent tool call is refused.
#[derive(PartialEq, Eq, Structural, Clone, Copy, Debug)]
pub enum IntentError {
    MissingTask,
    BadKind,
    ScheduledNeedsFireAt,
    TriggeredNeedsCondition,
    MissingIntentId,
    PendingActivationNeedsChosenPerson,
    NoChosenPerson,
}

impl IntentError {
    pub open spec fn spec_message(self) -> Seq<char> {
        match self {
            IntentError::MissingTask => "Provide task."@,
            IntentError::BadKind => "kind must be scheduled or triggered."@,
            IntentError::ScheduledNeedsFireAt => "scheduled intents require fire_at."@,
            IntentError::TriggeredNeedsCondition => "triggered intents require condition."@,
            IntentError::MissingIntentId => "Provide intent_id."@,
            IntentError::PendingActivationNeedsChosenPerson => "Activating an chosen-person-approval intent requires chosen-human authority."@,
            IntentError::NoChosenPerson => "Chosen-person approval is required, but no chosen person is configured."@,
        }
    }

    /// The message the tool reports.
    pub fn message(&self) -> (r: &'static str)
        ensures
            r@ == self.spec_message(),
    {
        match self {
            IntentError::MissingTask => "Provide task.",
            IntentError::BadKind => "kind must be scheduled or triggered.",
            IntentError::ScheduledNeedsFireAt => "scheduled intents require fire_at.",
            IntentError::TriggeredNeedsCondition => "triggered intents require condition.",
            IntentError::MissingIntentId => "Provide intent_id.",
            IntentError::PendingActivationNeedsChosenPerson => "Activating an chosen-person-approval intent requires chosen-human authority.",
            IntentError::NoChosenPerson => "Chosen-person approval is required, but no chosen person is configured.",
        }
    }
}

pub open spec fn or_else(a: Option<Seq<char>>, b: Option<Seq<char>>) -> Option<Seq<char>> {
    match a {
        Some(x) => Some(x),
        None => b,
    }
}

/// `source_memory_arg`: `source_memory_id`, else `source_memory`, trimmed,
/// when not empty.
pub open spec fn source_memory_spec(args: Json) -> Option<Seq<char>> {
    let raw = or_else(args.str_at("source_memory_id"@), args.str_at("source_memory"@));
    match raw {
        Some(s) => if trim_seq(s).len() > 0 {
            Some(trim_seq(s))
        } else {
            None
        },
        None => None,
    }
}

pub fn source_memory_arg(args: &Json) -> (r: Option<String>)
    ensures
        opt_view(r) == source_memory_spec(*args),
{
    let raw = match args.str_field("source_memory_id") {
        Some(s) => Some(s),
        None => args.str_field("source_memory"),
    };
    match raw {
        Some(s) => {
            let t = trim(s.as_str());
            if t.as_str().is_empty() {
                None
            } else {
                Some(t)
            }
        },
        None => None,
    }
}

pub open spec fn kind_spec(args: Json) -> Seq<char> {
    match args.str_at("kind"@) {
        Some(k) => k,
        None => "scheduled"@,
    }
}

pub open spec fn valid_kind(k: Seq<char>) -> bool {
    k == "scheduled"@ || k == "triggered"@
}

/// `min(priority, 100)`, 50 when absent.
pub open spec fn priority_spec(args: Json) -> u8 {
    match args.u64_at("priority"@) {
        Some(p) => if p > 100 {
            100
        } else {
            p as u8
        },
        None => 50,
    }
}

/// Which check refuses an intent, in the order the checks run.
pub open spec fn create_refusal(args: Json) -> Option<IntentError> {
    let k = kind_spec(args);
    if !(args.str_at("task"@) is Some && trim_seq(args.str_at("task"@)->0).len() > 0) {
        Some(IntentError::MissingTask)
    } else if !valid_kind(k) {
        Some(IntentError::BadKind)
    } else if k == "scheduled"@ && args.i64_at("fire_at"@) is None {
        Some(IntentError::ScheduledNeedsFireAt)
    } else if k == "triggered"@ && (args.str_at("condition"@) is None || args.str_at("condition"@)->0.len() == 0) {
        Some(IntentError::TriggeredNeedsCondition)
    } else {
        None
    }
}

/// Plans `create_intent`: the intent to store, targeted at the named
/// person, profile and conversation or else the current ones; pending the
/// chosen person's approval when it is sensitive and they did not ask.
pub fn plan_intent(
    args: &Json,
    authority: Authority,
    first: Option<&InboundMessage>,
    conversation: &Option<String>,
    action_id: &String,
) -> (r: Result<IntentDraft, IntentError>)
    ensures
        match r {
            Err(e) => create_refusal(*args) == Some(e),
            Ok(d) => {
                &&& create_refusal(*args) is None
                &&& d.kind@ == kind_spec(*args)
                &&& d.task@ == args.str_at("task"@)->0
                &&& d.chosen_person_approved == (authority == Authority::ChosenPerson)
                &&& d.status == (if intent_requires_approval(*args) && authority != Authority::ChosenPerson {
                    IntentStatus::PendingApproval
                } else {
                    IntentStatus::Active
                })
                &&& opt_view(d.person) == or_else(args.str_at("person"@), match first {
                    Some(m) => opt_view(m.person),
                    None => None,
                })
                &&& opt_view(d.profile) == or_else(args.str_at("profile"@), match first {
                    Some(m) => opt_view(m.profile),
                    None => None,
                })
                &&& opt_view(d.conversation) == or_else(args.str_at("conversation"@), opt_view(*conversation))
                &&& d.fire_at == args.i64_at("fire_at"@)
                &&& opt_view(d.condition) == args.str_at("condition"@)
                &&& opt_view(d.recurrence) == args.str_at("recurrence"@)
                &&& d.priority == priority_spec(*args)
                &&& opt_view(d.dedupe_key) == args.str_at("dedupe_key"@)
                &&& opt_view(d.source_memory) == source_memory_spec(*args)
                &&& opt_view(d.source_action) == Some(action_id@)
            },
        },
{
    let task = match args.str_field("task") {
        Some(t) => {
            if is_blank(t.as_str()) {
                return Err(IntentError::MissingTask);
            }
            t
        },
        None => {
            return Err(IntentError::MissingTask);
        },
    };
    let kind = match args.str_field("kind") {
        Some(k) => k,
        None => owned("scheduled"),
    };
    let scheduled = str_eq(kind.as_str(), "scheduled");
    let triggered = str_eq(kind.as_str(), "triggered");
    if !scheduled && !triggered {
        return Err(IntentError::BadKind);
    }
    let fire_at = args.i64_field("fire_at");
    let condition = args.str_field("condition");
    if scheduled && fire_at.is_none() {
        return Err(IntentError::ScheduledNeedsFireAt);
    }
    if triggered {
        let missing = match &condition {
            Some(c) => c.as_str().is_empty(),
            None => true,
        };
        if missing {
            return Err(IntentError::TriggeredNeedsCondition);
        }
    }
    let approved = authority == Authority::ChosenPerson;
    let status = if intent_requires_chosen_person_approval(args) && !approved {
        IntentStatus::PendingApproval
    } else {
        IntentStatus::Active
    };
    let person = match args.str_field("person") {
        Some(p) => Some(p),
        None => match first {
            Some(m) => crate::model::copy_opt(&m.person),
            None => None,
        },
    };
    let profile = match args.str_field("profile") {
        Some(p) => Some(p),
        None => match first {
            Some(m) => crate::model::copy_opt(&m.profile),
            None => None,
        },
    };
    let conv = match args.str_field("conversation") {
        Some(c) => Some(c),
        None => crate::model::copy_opt(conversation),
    };
    let priority: u8 = match args.u64_field("priority") {
        Some(p) => if p > 100 {
            100
        } else {
            p as u8
        },
        None => 50,
    };
    Ok(
        IntentDraft {
            kind,
            status,
            task,
            person,
            profile,
            conversation: conv,
            fire_at,
            condition,
            recurrence: args.str_field("recurrence"),
            priority,
            dedupe_key: args.str_field("dedupe_key"),
            source_memory: source_memory_arg(args),
            source_action: Some(action_id.clone()),
            chosen_person_approved: approved,
        },
    )
}

/// The first person whose relationship carries chosen-person authority.
pub open spec fn chosen_person_spec(bonds: Seq<(String, Authority)>) -> Option<Seq<char>>
    decreases bonds.len(),
{
    if bonds.len() == 0 {
        None
    } else if bonds[0].1 == Authority::ChosenPerson {
        Some(bonds[0].0@)
    } else {
        chosen_person_spec(bonds.drop_first())
    }
}

/// `chosen_person`, over the relationships in the order they are kept.
pub fn chosen_person(bonds: &Vec<(String, Authority)>) -> (r: Option<String>)
    ensures
        opt_view(r) == chosen_person_spec(bonds@),
{
    let mut i: usize = 0;
    assert(bonds@.skip(0) =~= bonds@);
    while i < bonds.len()
        invariant
            0 <= i <= bonds.len(),
            chosen_person_spec(bonds@) == chosen_person_spec(bonds@.skip(i as int)),
        decreases bonds.len() - i,
    {
        assert(bonds@.skip(i as int).drop_first() =~= bonds@.skip(i + 1));
        assert(bonds@.skip(i as int)[0] == bonds@[i as int]);
        if bonds[i].1 == Authority::ChosenPerson {
            return Some(bonds[i].0.clone());
        }
        i = i + 1;
    }
    None
}

/// The sentences that tell the chosen person what a pending intent targets.
pub open spec fn target_parts(d: IntentDraft, args: Json) -> Seq<Seq<char>> {
    let a = match d.person {
        Some(p) => seq!["Target person: "@ + p@ + "."@],
        None => Seq::empty(),
    };
    let b = match d.profile {
        Some(p) => seq!["Target profile: "@ + p@ + "."@],
        None => Seq::empty(),
    };
    let c = match d.conversation {
        Some(p) => seq!["Conversation: "@ + p@ + "."@],
        None => Seq::empty(),
    };
    let s = if args.flag_at("sensitive"@) {
        seq!["The request was marked sensitive."@]
    } else {
        Seq::empty()
    };
    let e = if args.flag_at("requires_chosen_person_approval"@) {
        seq!["The request explicitly requires chosen-person approval."@]
    } else {
        Seq::empty()
    };
    a + b + c + s + e
}

pub open spec fn target_description(d: IntentDraft, args: Json) -> Seq<char> {
    if target_parts(d, args).len() == 0 {
        "No explicit target was provided."@
    } else {
        joined(target_parts(d, args), " "@)
    }
}

fn labelled(label: &str, value: &String) -> (r: String)
    ensures
        r@ == label@ + value@ + "."@,
{
    let mut s = owned(label);
    append_str(&mut s, value.as_str());
    append_str(&mut s, ".");
    s
}

/// What the chosen person is told a pending intent targets.
pub fn chosen_person_approval_target_description(d: &IntentDraft, args: &Json) -> (r: String)
    ensures
        r@ == target_description(*d, *args),
{
    let mut parts: Vec<String> = Vec::new();
    let ghost want = target_parts(*d, *args);
    match &d.person {
        Some(p) => parts.push(labelled("Target person: ", p)),
        None => {},
    }
    match &d.profile {
        Some(p) => parts.push(labelled("Target profile: ", p)),
        None => {},
    }
    match &d.conversation {
        Some(p) => parts.push(labelled("Conversation: ", p)),
        None => {},
    }
    if args.flag("sensitive") {
        parts.push(owned("The request was marked sensitive."));
    }
    if args.flag("requires_chosen_person_approval") {
        parts.push(owned("The request explicitly requires chosen-person approval."));
    }
    assert(parts@.map_values(|s: String| s@) =~= want);
    if parts.len() == 0 {
        owned("No explicit target was provided.")
    } else {
        join(&parts, " ")
    }
}

/// The task of the chosen person's approval intent.
pub open spec fn approval_task_spec(pending_id: Seq<char>, d: IntentDraft, args: Json) -> Seq<char> {
    "Review proactive outreach before it is sent. Pending intent: "@ + pending_id + ". Proposed task: "@ + d.task@
        + ". "@ + target_description(d, args) + " If the chosen person approves, update intent "@ + pending_id
        + " with status active. If the chosen person declines, delete intent "@ + pending_id + "."@
}

/// The dedupe key of the approval intent, from the pending intent's own key
/// or its id.
pub open spec fn approval_dedupe_spec(pending_id: Seq<char>, d: IntentDraft) -> Seq<char> {
    "chosen-person-approval:intent-tool:"@ + match d.dedupe_key {
        Some(k) => k@,
        None => "intent-tool:pending-approval:"@ + pending_id,
    }
}

/// The approval intent that asks the chosen person about a pending one: due
/// now, active, top priority, already approved.
pub fn approval_intent(
    pending_id: &str,
    d: &IntentDraft,
    args: &Json,
    chosen_person: &String,
    action_id: &String,
    now: i64,
) -> (r: IntentDraft)
    ensures
        r.kind@ == "scheduled"@,
        r.status == IntentStatus::Active,
        r.task@ == approval_task_spec(pending_id@, *d, *args),
        opt_view(r.person) == Some(chosen_person@),
        r.profile is None && r.conversation is None,
        r.fire_at == Some(now),
        r.condition is None && r.recurrence is None,
        r.priority == 100,
        opt_view(r.dedupe_key) == Some(approval_dedupe_spec(pending_id@, *d)),
        opt_view(r.source_memory) == opt_view(d.source_memory),
        opt_view(r.source_action) == Some(action_id@),
        r.chosen_person_approved,
{
    let mut task = owned("Review proactive outreach before it is sent. Pending intent: ");
    append_str(&mut task, pending_id);
    append_str(&mut task, ". Proposed task: ");
    append_str(&mut task, d.task.as_str());
    append_str(&mut task, ". ");
    let desc = chosen_person_approval_target_description(d, args);
    append_str(&mut task, desc.as_str());
    append_str(&mut task, " If the chosen person approves, update intent ");
    append_str(&mut task, pending_id);
    append_str(&mut task, " with status active. If the chosen person declines, delete intent ");
    append_str(&mut task, pending_id);
    append_str(&mut task, ".");
    let mut key = owned("chosen-person-approval:intent-tool:");
    match &d.dedupe_key {
        Some(k) => append_str(&mut key, k.as_str()),
        None => {
            append_str(&mut key, "intent-tool:pending-approval:");
            append_str(&mut key, pending_id);
        },
    }
    assert(task@ =~= approval_task_spec(pending_id@, *d, *args));
    assert(key@ =~= approval_dedupe_spec(pending_id@, *d));
    IntentDraft {
        kind: owned("scheduled"),
        status: IntentStatus::Active,
        task,
        person: Some(chosen_person.clone()),
        profile: None,
        conversation: None,
        fire_at: Some(now),
        condition: None,
        recurrence: None,
        priority: 100,
        dedupe_key: Some(key),
        source_memory: crate::model::copy_opt(&d.source_memory),
        source_action: Some(action_id.clone()),
        chosen_person_approved: true,
    }
}

/// An argument key other than the id and the two approval flags.
pub open spec fn surface_key(key: Seq<char>) -> bool {
    !(key == "intent_id"@ || key == "sensitive"@ || key == "requires_chosen_person_approval"@)
}

/// Any argument besides the id and the two approval flags changes what was
/// approved.
pub open spec fn changes_approved_surface(args: Json) -> bool {
    match args {
        Json::Object(entries) => has_surface_key(entries@),
        _ => false,
    }
}

pub open spec fn has_surface_key(entries: Seq<(String, Json)>) -> bool {
    exists|k: int| 0 <= k < entries.len() && #[trigger] surface_key(entries[k].0@)
}

/// An update changes what the chosen person approved exactly when its
/// arguments hold a key other than `intent_id`, `sensitive` and
/// `requires_chosen_person_approval` (any retargeting, rewording or
/// rescheduling); arguments that are not an object change nothing.
pub proof fn lemma_surface_keys(args: Json)
    ensures
        changes_approved_surface(args) <==> (match args {
            Json::Object(entries) => exists|k: int|
                0 <= k < entries@.len() && (#[trigger] entries@[k]).0@ != "intent_id"@ && entries@[k].0@
                    != "sensitive"@ && entries@[k].0@ != "requires_chosen_person_approval"@,
            _ => false,
        }),
{
    match args {
        Json::Object(entries) => {
            if changes_approved_surface(args) {
                let k = choose|k: int| 0 <= k < entries@.len() && #[trigger] surface_key(entries@[k].0@);
                assert(entries@[k].0@ != "intent_id"@);
            }
            if exists|k: int|
                0 <= k < entries@.len() && (#[trigger] entries@[k]).0@ != "intent_id"@ && entries@[k].0@
                    != "sensitive"@ && entries@[k].0@ != "requires_chosen_person_approval"@ {
                let k = choose|k: int|
                    0 <= k < entries@.len() && (#[trigger] entries@[k]).0@ != "intent_id"@ && entries@[k].0@
                        != "sensitive"@ && entries@[k].0@ != "requires_chosen_person_approval"@;
                assert(surface_key(entries@[k].0@));
            }
        },
        _ => {},
    }
}

/// `update_changes_approved_intent_surface`.
pub fn update_changes_approved_intent_surface(args: &Json) -> (r: bool)
    ensures
        r == changes_approved_surface(*args),
{
    match args {
        Json::Object(entries) => {
            let mut i: usize = 0;
            while i < entries.len()
                invariant
                    0 <= i <= entries.len(),
                    *args == Json::Object(*entries),
                    forall|k: int| 0 <= k < i ==> !#[trigger] surface_key(entries@[k].0@),
                decreases entries.len() - i,
            {
                let key = entries[i].0.as_str();
                if !str_eq(key, "intent_id") && !str_eq(key, "sensitive") && !str_eq(
                    key,
                    "requires_chosen_person_approval",
                ) {
                    assert(surface_key(entries@[i as int].0@));
                    assert(has_surface_key(entries@));
                    return true;
                }
                i = i + 1;
            }
            false
        },
        _ => false,
    }
}

/// The changes an intent update makes; `None` leaves a field as it is.
pub struct IntentUpdateDraft {
    pub kind: Option<String>,
    pub status: Option<String>,
    pub task: Option<String>,
    pub person: Option<String>,
    pub profile: Option<String>,
    pub conversation: Option<String>,
    pub fire_at: Option<i64>,
    pub condition: Option<String>,
    pub recurrence: Option<String>,
    pub priority: Option<u8>,
    pub dedupe_key: Option<String>,
    pub source_memory: Option<String>,
    /// Approved by the chosen person; withdrawn when someone else changes
    /// what was approved; else kept.
    pub chosen_person_approved: Option<bool>,
}

/// An update that activates an intent needs the intent's stored status
/// checked first, unless the chosen person makes it.
pub open spec fn needs_status_check(args: Json, authority: Authority) -> bool {
    authority != Authority::ChosenPerson && args.str_at("status"@) == Some("active"@)
}

pub fn update_needs_status_check(args: &Json, authority: Authority) -> (r: bool)
    ensures
        r == needs_status_check(*args, authority),
{
    authority != Authority::ChosenPerson && match args.str_field("status") {
        Some(s) => str_eq(s.as_str(), "active"),
        None => false,
    }
}

pub open spec fn update_refusal(args: Json, authority: Authority, stored_status: Option<Seq<char>>) -> Option<
    IntentError,
> {
    if !(args.str_at("intent_id"@) is Some && args.str_at("intent_id"@)->0.len() > 0) {
        Some(IntentError::MissingIntentId)
    } else if args.str_at("kind"@) is Some && !valid_kind(args.str_at("kind"@)->0) {
        Some(IntentError::BadKind)
    } else if needs_status_check(args, authority) && stored_status == Some("pending_approval"@) {
        Some(IntentError::PendingActivationNeedsChosenPerson)
    } else {
        None
    }
}

/// Plans `update_intent`; `stored_status` is the stored intent's status when
/// `update_needs_status_check` asked for it.
pub fn plan_intent_update(args: &Json, authority: Authority, stored_status: Option<&str>) -> (r: Result<
    (String, IntentUpdateDraft),
    IntentError,
>)
    ensures
        match r {
            Err(e) => update_refusal(*args, authority, match stored_status {
                Some(s) => Some(s@),
                None => None,
            }) == Some(e),
            Ok((id, u)) => {
                &&& update_refusal(*args, authority, match stored_status {
                    Some(s) => Some(s@),
                    None => None,
                }) is None
                &&& id@ == args.str_at("intent_id"@)->0
                &&& opt_view(u.kind) == args.str_at("kind"@)
                &&& opt_view(u.status) == args.str_at("status"@)
                &&& opt_view(u.task) == args.str_at("task"@)
                &&& opt_view(u.person) == args.str_at("person"@)
                &&& opt_view(u.profile) == args.str_at("profile"@)
                &&& opt_view(u.conversation) == args.str_at("conversation"@)
                &&& u.fire_at == args.i64_at("fire_at"@)
                &&& opt_view(u.condition) == args.str_at("condition"@)
                &&& opt_view(u.recurrence) == args.str_at("recurrence"@)
                &&& u.priority == match args.u64_at("priority"@) {
                    Some(p) => Some(
                        if p > 100 {
                            100u8
                        } else {
                            p as u8
                        },
                    ),
                    None => None,
                }
                &&& opt_view(u.dedupe_key) == args.str_at("dedupe_key"@)
                &&& opt_view(u.source_memory) == source_memory_spec(*args)
                &&& u.chosen_person_approved == if authority == Authority::ChosenPerson {
                    Some(true)
                } else if changes_approved_surface(*args) {
                    Some(false)
                } else {
                    None
                }
            },
        },
{
    let id = match args.str_field("intent_id") {
        Some(i) => {
            if i.as_str().is_empty() {
                return Err(IntentError::MissingIntentId);
            }
            i
        },
        None => {
            return Err(IntentError::MissingIntentId);
        },
    };
    let kind = args.str_field("kind");
    match &kind {
        Some(k) => {
            if !str_eq(k.as_str(), "scheduled") && !str_eq(k.as_str(), "triggered") {
                return Err(IntentError::BadKind);
            }
        },
        None => {},
    }
    if update_needs_status_check(args, authority) {
        match stored_status {
            Some(s) => {
                if str_eq(s, "pending_approval") {
                    return Err(IntentError::PendingActivationNeedsChosenPerson);
                }
            },
            None => {},
        }
    }
    let approved = if authority == Authority::ChosenPerson {
        Some(true)
    } else if update_changes_approved_intent_surface(args) {
        Some(false)
    } else {
        None
    };
    let priority: Option<u8> = match args.u64_field("priority") {
        Some(p) => Some(
            if p > 100 {
                100
            } else {
                p as u8
            },
        ),
        None => None,
    };
    Ok(
        (
            id,
            IntentUpdateDraft {
                kind,
                status: args.str_field("status"),
                task: args.str_field("task"),
                person: args.str_field("person"),
                profile: args.str_field("profile"),
                conversation: args.str_field("conversation"),
                fire_at: args.i64_field("fire_at"),
                condition: args.str_field("condition"),
                recurrence: args.str_field("recurrence"),
                priority,
                dedupe_key: args.str_field("dedupe_key"),
                source_memory: source_memory_arg(args),
                chosen_person_approved: approved,
            },
        ),
    )
}

/// The id `delete_intent` cancels.
pub fn intent_id_arg(args: &Json) -> (r: Result<String, IntentError>)
    ensures
        match r {
            Ok(id) => args.str_at("intent_id"@) == Some(id@) && id@.len() > 0,
            Err(e) => e == IntentError::MissingIntentId && !(args.str_at("intent_id"@) is Some
                && args.str_at("intent_id"@)->0.len() > 0),
        },
{
    match args.str_field("intent_id") {
        Some(i) => if i.as_str().is_empty() {
            Err(IntentError::MissingIntentId)
        } else {
            Ok(i)
        },
        None => Err(IntentError::MissingIntentId),
    }
}

/// Only the chosen person activates an intent that waits for their
/// approval: any other activation of it is refused.
pub proof fn lemma_only_chosen_person_activates_pending(args: Json, authority: Authority)
    requires
        args.str_at("intent_id"@) is Some && args.str_at("intent_id"@)->0.len() > 0,
        !(args.str_at("kind"@) is Some && !valid_kind(args.str_at("kind"@)->0)),
        args.str_at("status"@) == Some("active"@),
        authority != Authority::ChosenPerson,
    ensures
        update_refusal(args, authority, Some("pending_approval"@)) == Some(
            IntentError::PendingActivationNeedsChosenPerson,
        ),
{
}

/// How a `create_intent` call ended once its drafts met the store.
pub enum CreateOutcome {
    /// The intent was stored under this id.
    Created(String),
    /// The pending intent and the chosen person's approval intent were stored.
    PendingApproval { intent_id: String, approval_id: String },
    /// The intent needs approval and no chosen person is configured.
    NoChosenPerson,
    /// The store refused the intent with this error.
    StoreFailed(String),
    /// The pending intent was stored, its approval intent not.
    ApprovalFailed { intent_id: String, error: String },
}

pub open spec fn no_chosen_person_message() -> Seq<char> {
    "Chosen-person approval is required, but no chosen person is configured."@
}

pub open spec fn approval_failed_message(intent_id: Seq<char>, error: Seq<char>) -> Seq<char> {
    "Created pending intent "@ + intent_id + ", but failed to create chosen-person approval intent: "@ + error
}

/// The JSON answer of `create_intent`, field by field (absent fields are
/// `None`): its status, the intent's id, the approval intent's id, and the
/// message of an error.
pub open spec fn create_reply_fields(o: CreateOutcome) -> (Seq<char>, Option<Seq<char>>, Option<Seq<char>>, Option<Seq<char>>) {
    match o {
        CreateOutcome::Created(id) => ("created"@, Some(id@), None, None),
        CreateOutcome::PendingApproval { intent_id, approval_id } => ("pending_approval"@, Some(intent_id@), Some(approval_id@), None),
        CreateOutcome::NoChosenPerson => ("error"@, None, None, Some(no_chosen_person_message())),
        CreateOutcome::StoreFailed(e) => ("error"@, None, None, Some(e@)),
        CreateOutcome::ApprovalFailed { intent_id, error } => ("error"@, Some(intent_id@), None, Some(approval_failed_message(intent_id@, error@))),
    }
}

proof fn lemma_reply_keys_distinct()
    ensures
        "status"@ != "intent_id"@,
        "status"@ != "chosen_human_intent_id"@,
        "status"@ != "message"@,
        "intent_id"@ != "chosen_human_intent_id"@,
        "intent_id"@ != "message"@,
        "chosen_human_intent_id"@ != "message"@,
{
    reveal_strlit("status");
    reveal_strlit("intent_id");
    reveal_strlit("chosen_human_intent_id");
    reveal_strlit("message");
    assert("status"@[0] != "intent_id"@[0]);
    assert("status"@[0] != "chosen_human_intent_id"@[0]);
    assert("status"@[0] != "message"@[0]);
    assert("intent_id"@[0] != "chosen_human_intent_id"@[0]);
    assert("intent_id"@[0] != "message"@[0]);
    assert("chosen_human_intent_id"@[0] != "message"@[0]);
}

/// `create_intent`'s answer.
pub fn create_reply(o: CreateOutcome) -> (r: Json)
    ensures
        r is Object,
        r.str_at("status"@) == Some(create_reply_fields(o).0),
        r.str_at("intent_id"@) == create_reply_fields(o).1,
        r.str_at("chosen_human_intent_id"@) == create_reply_fields(o).2,
        r.str_at("message"@) == create_reply_fields(o).3,
        forall|k: Seq<char>|
            k != "status"@ && k != "intent_id"@ && k != "chosen_human_intent_id"@ && k != "message"@ ==> #[trigger] r.field(k) is None,
{
    proof {
        lemma_reply_keys_distinct();
    }
    let ghost o0 = o;
    let mut e: Vec<(String, Json)> = Vec::new();
    match o {
        CreateOutcome::Created(id) => {
            crate::json::object_insert(&mut e, "status", Json::Str(owned("created")));
            crate::json::object_insert(&mut e, "intent_id", Json::Str(id));
        },
        CreateOutcome::PendingApproval { intent_id, approval_id } => {
            crate::json::object_insert(&mut e, "status", Json::Str(owned("pending_approval")));
            crate::json::object_insert(&mut e, "intent_id", Json::Str(intent_id));
            crate::json::object_insert(&mut e, "chosen_human_intent_id", Json::Str(approval_id));
        },
        CreateOutcome::NoChosenPerson => {
            crate::json::object_insert(&mut e, "status", Json::Str(owned("error")));
            crate::json::object_insert(
                &mut e,
                "message",
                Json::Str(owned("Chosen-person approval is required, but no chosen person is configured.")),
            );
        },
        CreateOutcome::StoreFailed(err) => {
            crate::json::object_insert(&mut e, "status", Json::Str(owned("error")));
            crate::json::object_insert(&mut e, "message", Json::Str(err));
        },
        CreateOutcome::ApprovalFailed { intent_id, error } => {
            let mut m = owned("Created pending intent ");
            append_str(&mut m, intent_id.as_str());
            append_str(&mut m, ", but failed to create chosen-person approval intent: ");
            append_str(&mut m, error.as_str());
            assert(m@ =~= approval_failed_message(intent_id@, error@));
            crate::json::object_insert(&mut e, "status", Json::Str(owned("error")));
            crate::json::object_insert(&mut e, "message", Json::Str(m));
            crate::json::object_insert(&mut e, "intent_id", Json::Str(intent_id));
        },
    }
    Json::Object(e)
}

} // verus!
