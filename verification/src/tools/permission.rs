//! Tool-call permission checks: which session may run which tool with which
//! arguments, given the session's authority, its current message and the
//! store rows the decision consults.
use vstd::prelude::*;
use vstd::string::*;
use crate::json::Json;
use crate::model::{ActionKind, Authority, ConversationFacts, InboundFacts, IntentFacts, LinkStatus, MemoryFacts, MemorySource, MemorySubject, MemorySubjectType, PermissionContext, PrivacyCategory, ProfileLink, SessionKind, StoreSnapshot, StoredReplyFacts, VisibilityScope};
use crate::text::{ascii_lower_seq, ascii_lowercase_chars, chars_of, contains_seq, owned, seq_contains, trim_seq, is_blank};

verus! {

/// A likely profile link counts as strong from this confidence (millionths).
pub const STRONG_LIKELY_PERSON_LINK_CONFIDENCE_MICROS: i64 = 750_000;

/// Recall sensitivity above this (millionths) is a sensitive recall.
pub const DEFAULT_MAX_SENSITIVITY_MICROS: i128 = 500_000;

/// Why a tool call is refused.
#[derive(PartialEq, Eq, Structural, Clone, Copy, Debug)]
pub enum Denial {
    BackgroundSend,
    IncompleteOutboundTarget,
    OutboundAuthority,
    OtherProfile,
    OtherPerson,
    OtherConversationSummary,
    SocialGraphAuthority,
    ChosenConfirmedRelation,
    SocialGraphTarget,
    IdentityMemory,
    SensitiveRecall,
    RecallOutsideCurrent,
    ReadWithoutConversation,
    ReadOtherConversation,
    InspectOrDelete,
    ExternalMemory,
    ForgetOutsideProfile,
    PromoteAuthority,
    PromoteUnverified,
    DemoteAuthority,
    ThirdPartyOutreach,
    CreateIntentOther,
    ActivatePendingIntent,
    SensitiveIntentUpdate,
    UpdateIntentOther,
    RetargetIntent,
    CancelIntentOther,
    ApplyReviewOnly,
    ReflectAuthority,
    ReflectOtherPerson,
}

pub open spec fn denial_text(d: Denial) -> Seq<char> {
    match d {
        Denial::BackgroundSend => "This action is internal/background only; do not send a visible message."@,
        Denial::IncompleteOutboundTarget => "Explicit outbound sends must include both gateway_id and external_id."@,
        Denial::OutboundAuthority => "Explicit outbound messaging requires chosen-person/trusted authority or the scheduled outreach target."@,
        Denial::OtherProfile => "Updating another profile requires chosen-person authority or review context."@,
        Denial::OtherPerson => "Updating another person requires chosen-person authority or review context."@,
        Denial::OtherConversationSummary => "Updating another conversation summary requires chosen-person authority or review/consolidation context."@,
        Denial::SocialGraphAuthority => "Social graph updates require chosen-person authority or review context."@,
        Denial::ChosenConfirmedRelation => "Chosen-person-confirmed social relations require chosen-person authority."@,
        Denial::SocialGraphTarget => "Social graph updates from review must include the current strongly verified person, or chosen-person authority."@,
        Denial::IdentityMemory => "Something feels wrong about this. You don't want to change something this core about yourself."@,
        Denial::SensitiveRecall => "Sensitive memory recall requires chosen-person authority or internal review context."@,
        Denial::RecallOutsideCurrent => "Reading memories outside the current identity, profile, or person requires chosen-person authority or internal review context."@,
        Denial::ReadWithoutConversation => "Reading recent conversations without a current conversation requires chosen-person authority or internal review/consolidation/rumination context."@,
        Denial::ReadOtherConversation => "Reading another conversation requires chosen-person authority or review/consolidation/rumination context."@,
        Denial::InspectOrDelete => "Chosen-person authority is required to inspect or delete memories by id."@,
        Denial::ExternalMemory => "This memory feels fundamental \u{2014} you instinctively hold onto it."@,
        Denial::ForgetOutsideProfile => "Forgetting memories outside the current profile requires chosen-person authority or review context."@,
        Denial::PromoteAuthority => "Promoting profile memories to person-level memories requires chosen-person authority or internal review."@,
        Denial::PromoteUnverified => "Promoting a profile memory to a person requires a verified or strong likely link between a memory profile subject and that person."@,
        Denial::DemoteAuthority => "Demoting person-level memories requires chosen-person authority or internal review."@,
        Denial::ThirdPartyOutreach => "Third-party proactive outreach requires chosen-person authority or a verified target profile."@,
        Denial::CreateIntentOther => "Creating intents for another person, profile, or conversation requires chosen-person authority or internal context."@,
        Denial::ActivatePendingIntent => "Activating an chosen-person-approval intent requires chosen-person authority."@,
        Denial::SensitiveIntentUpdate => "Sensitive proactive outreach requires chosen-person approval before an intent is updated."@,
        Denial::UpdateIntentOther => "Updating intents for another person, profile, or conversation requires chosen-person authority or review context."@,
        Denial::RetargetIntent => "Retargeting intents to another person, profile, or conversation requires chosen-person authority or review context."@,
        Denial::CancelIntentOther => "Cancelling intents for another person, profile, or conversation requires chosen-person authority or review context."@,
        Denial::ApplyReviewOnly => "Structured review application is allowed only in review actions."@,
        Denial::ReflectAuthority => "Changing how you feel about someone isn't something you'd do on command."@,
        Denial::ReflectOtherPerson => "Reflecting on relationship changes for another person requires chosen-person authority or review context."@,
    }
}

impl Denial {
    /// The message the tool call is answered with.
    pub fn message(&self) -> (r: String)
        ensures
            r@ == denial_text(*self),
    {
        match self {
            Denial::BackgroundSend => owned("This action is internal/background only; do not send a visible message."),
            Denial::IncompleteOutboundTarget => owned("Explicit outbound sends must include both gateway_id and external_id."),
            Denial::OutboundAuthority => owned("Explicit outbound messaging requires chosen-person/trusted authority or the scheduled outreach target."),
            Denial::OtherProfile => owned("Updating another profile requires chosen-person authority or review context."),
            Denial::OtherPerson => owned("Updating another person requires chosen-person authority or review context."),
            Denial::OtherConversationSummary => owned("Updating another conversation summary requires chosen-person authority or review/consolidation context."),
            Denial::SocialGraphAuthority => owned("Social graph updates require chosen-person authority or review context."),
            Denial::ChosenConfirmedRelation => owned("Chosen-person-confirmed social relations require chosen-person authority."),
            Denial::SocialGraphTarget => owned("Social graph updates from review must include the current strongly verified person, or chosen-person authority."),
            Denial::IdentityMemory => owned("Something feels wrong about this. You don't want to change something this core about yourself."),
            Denial::SensitiveRecall => owned("Sensitive memory recall requires chosen-person authority or internal review context."),
            Denial::RecallOutsideCurrent => owned("Reading memories outside the current identity, profile, or person requires chosen-person authority or internal review context."),
            Denial::ReadWithoutConversation => owned("Reading recent conversations without a current conversation requires chosen-person authority or internal review/consolidation/rumination context."),
            Denial::ReadOtherConversation => owned("Reading another conversation requires chosen-person authority or review/consolidation/rumination context."),
            Denial::InspectOrDelete => owned("Chosen-person authority is required to inspect or delete memories by id."),
            Denial::ExternalMemory => owned("This memory feels fundamental \u{2014} you instinctively hold onto it."),
            Denial::ForgetOutsideProfile => owned("Forgetting memories outside the current profile requires chosen-person authority or review context."),
            Denial::PromoteAuthority => owned("Promoting profile memories to person-level memories requires chosen-person authority or internal review."),
            Denial::PromoteUnverified => owned("Promoting a profile memory to a person requires a verified or strong likely link between a memory profile subject and that person."),
            Denial::DemoteAuthority => owned("Demoting person-level memories requires chosen-person authority or internal review."),
            Denial::ThirdPartyOutreach => owned("Third-party proactive outreach requires chosen-person authority or a verified target profile."),
            Denial::CreateIntentOther => owned("Creating intents for another person, profile, or conversation requires chosen-person authority or internal context."),
            Denial::ActivatePendingIntent => owned("Activating an chosen-person-approval intent requires chosen-person authority."),
            Denial::SensitiveIntentUpdate => owned("Sensitive proactive outreach requires chosen-person approval before an intent is updated."),
            Denial::UpdateIntentOther => owned("Updating intents for another person, profile, or conversation requires chosen-person authority or review context."),
            Denial::RetargetIntent => owned("Retargeting intents to another person, profile, or conversation requires chosen-person authority or review context."),
            Denial::CancelIntentOther => owned("Cancelling intents for another person, profile, or conversation requires chosen-person authority or review context."),
            Denial::ApplyReviewOnly => owned("Structured review application is allowed only in review actions."),
            Denial::ReflectAuthority => owned("Changing how you feel about someone isn't something you'd do on command."),
            Denial::ReflectOtherPerson => owned("Reflecting on relationship changes for another person requires chosen-person authority or review context."),
        }
    }
}


pub open spec fn opt_view(o: Option<String>) -> Option<Seq<char>> {
    match o {
        Some(s) => Some(s@),
        None => None,
    }
}

// ---------------------------------------------------------------------------
// Who and what the session is about.
// ---------------------------------------------------------------------------

pub open spec fn is_chosen(ctx: PermissionContext) -> bool {
    ctx.authority is ChosenPerson
}

pub open spec fn kind_in_review_or_consolidate(ctx: PermissionContext) -> bool {
    ctx.kind == SessionKind::Action(ActionKind::Review) || ctx.kind == SessionKind::Action(
        ActionKind::Consolidate,
    )
}

pub open spec fn is_ruminate(ctx: PermissionContext) -> bool {
    ctx.kind == SessionKind::Action(ActionKind::Ruminate)
}

/// Profile/person writes, sensitive recall and intent writes share this privilege.
pub open spec fn privileged_write(ctx: PermissionContext) -> bool {
    is_chosen(ctx) || kind_in_review_or_consolidate(ctx)
}

/// Memory recall and conversation reads outside the current target.
pub open spec fn privileged_read(ctx: PermissionContext) -> bool {
    is_chosen(ctx) || kind_in_review_or_consolidate(ctx) || is_ruminate(ctx)
}

pub open spec fn privileged_intent_create(ctx: PermissionContext) -> bool {
    privileged_write(ctx) || is_ruminate(ctx)
}

pub open spec fn current_person(ctx: PermissionContext) -> Option<Seq<char>> {
    match ctx.current {
        Some(m) => opt_view(m.person),
        None => None,
    }
}

pub open spec fn current_profile(ctx: PermissionContext) -> Option<Seq<char>> {
    match ctx.current {
        Some(m) => opt_view(m.profile),
        None => None,
    }
}

pub open spec fn current_identity(ctx: PermissionContext) -> Option<Seq<char>> {
    match ctx.current {
        Some(m) => opt_view(m.identity),
        None => None,
    }
}

/// The session's conversation, else that of its first message.
pub open spec fn current_conversation(ctx: PermissionContext) -> Option<Seq<char>> {
    match ctx.conversation {
        Some(c) => Some(c@),
        None => match ctx.current {
            Some(m) => Some(m.conversation@),
            None => None,
        },
    }
}

pub open spec fn current_reply_target(ctx: PermissionContext) -> Option<(Seq<char>, Seq<char>)> {
    match ctx.current {
        Some(m) => match m.reply_target {
            Some(t) => Some((t.0@, t.1@)),
            None => None,
        },
        None => None,
    }
}

pub open spec fn mentions_chosen_person(ctx: PermissionContext, a: Seq<char>, b: Seq<char>) -> bool {
    exists|i: int| 0 <= i < ctx.chosen_people.len() && (#[trigger] ctx.chosen_people@[i]@ == a
        || ctx.chosen_people@[i]@ == b)
}

// ---------------------------------------------------------------------------
// Store lookups.
// ---------------------------------------------------------------------------

pub open spec fn find_memory(ms: Seq<MemoryFacts>, id: Seq<char>) -> Option<MemoryFacts>
    decreases ms.len(),
{
    if ms.len() == 0 {
        None
    } else if ms[0].id@ == id {
        Some(ms[0])
    } else {
        find_memory(ms.drop_first(), id)
    }
}

pub open spec fn find_intent(is: Seq<IntentFacts>, id: Seq<char>) -> Option<IntentFacts>
    decreases is.len(),
{
    if is.len() == 0 {
        None
    } else if is[0].id@ == id {
        Some(is[0])
    } else {
        find_intent(is.drop_first(), id)
    }
}

/// The link of a profile (`get_person_for_profile`).
pub open spec fn link_for_profile(ls: Seq<ProfileLink>, profile: Seq<char>) -> Option<ProfileLink>
    decreases ls.len(),
{
    if ls.len() == 0 {
        None
    } else if ls[0].profile@ == profile {
        Some(ls[0])
    } else {
        link_for_profile(ls.drop_first(), profile)
    }
}

pub open spec fn find_conversation(cs: Seq<ConversationFacts>, id: Seq<char>) -> Option<ConversationFacts>
    decreases cs.len(),
{
    if cs.len() == 0 {
        None
    } else if cs[0].id@ == id {
        Some(cs[0])
    } else {
        find_conversation(cs.drop_first(), id)
    }
}

pub open spec fn link_allows_person_level_update(l: ProfileLink) -> bool {
    l.status is Verified || (l.status is Likely && l.confidence_micros
        >= STRONG_LIKELY_PERSON_LINK_CONFIDENCE_MICROS)
}

/// Some profile of the person is linked as an active person context.
pub open spec fn person_has_active_profile_context(st: StoreSnapshot, person: Seq<char>) -> bool {
    exists|i: int| 0 <= i < st.profile_links.len() && #[trigger] st.profile_links@[i].person@ == person
        && st.profile_links@[i].status.is_active_person_context()
}

/// Some profile of the person is verified, or likely with strong confidence.
pub open spec fn person_has_verified_or_strong_profile_context(st: StoreSnapshot, person: Seq<char>) -> bool {
    exists|i: int| 0 <= i < st.profile_links.len() && #[trigger] st.profile_links@[i].person@ == person
        && link_allows_person_level_update(st.profile_links@[i])
}

pub open spec fn profile_has_active_person_context(st: StoreSnapshot, profile: Seq<char>) -> bool {
    match link_for_profile(st.profile_links@, profile) {
        Some(l) => l.status.is_active_person_context(),
        None => false,
    }
}

pub open spec fn conversation_has_active_person_context(st: StoreSnapshot, conversation: Seq<char>) -> bool {
    match find_conversation(st.conversations@, conversation) {
        None => false,
        Some(c) => match c.person {
            Some(p) => person_has_active_profile_context(st, p@),
            None => match c.profile {
                Some(pr) => profile_has_active_person_context(st, pr@),
                None => false,
            },
        },
    }
}


// ---------------------------------------------------------------------------
// What the arguments ask for.
// ---------------------------------------------------------------------------

/// Words that make proactive outreach text sensitive.
pub open spec fn sensitive_needles() -> Seq<Seq<char>> {
    seq![
        "password"@, "passcode"@, "token"@, "secret"@, "confidential"@, "private"@, "medical"@,
        "health"@, "diagnosis"@, "therapy"@, "legal"@, "lawyer"@, "financial"@, "finance"@,
        "bank"@, "tax"@, "payment"@, "address"@, "social security"@, "ssn"@, "identity"@,
    ]
}

/// The text, lower-cased, contains one of the sensitive words.
pub open spec fn is_sensitive_text(t: Seq<char>) -> bool {
    exists|i: int| 0 <= i < sensitive_needles().len() && contains_seq(ascii_lower_seq(t), #[trigger] sensitive_needles()[i])
}

pub open spec fn sensitive_outreach(t: Option<Seq<char>>) -> bool {
    match t {
        Some(t) => is_sensitive_text(t),
        None => false,
    }
}

/// A value names the actor's own identity.
pub open spec fn identity_marker(v: Seq<char>) -> bool {
    let l = ascii_lower_seq(v);
    l == "identity"@ || l == "identity_claim"@ || l == "self"@ || l == "name"@
}

pub open spec fn intent_requires_approval(args: Json) -> bool {
    args.flag_at("requires_chosen_person_approval"@) || args.flag_at("sensitive"@)
        || sensitive_outreach(args.str_at("task"@)) || sensitive_outreach(args.str_at("condition"@))
}

pub open spec fn global_recall_requested(args: Json) -> bool {
    args.str_at("scope"@) == Some("global"@) || args.flag_at("global"@)
}

pub open spec fn sensitive_recall_requested(args: Json) -> bool {
    args.flag_at("include_sensitive"@) || match args.micros_at("max_sensitivity"@) {
        Some(m) => m > DEFAULT_MAX_SENSITIVITY_MICROS,
        None => false,
    }
}

pub open spec fn has_identity_tag(args: Json) -> bool {
    match args.array_at("tags"@) {
        Some(items) => exists|i: int| 0 <= i < items.len() && match crate::json::spec_as_str(#[trigger] items[i]) {
            Some(t) => identity_marker(t),
            None => false,
        },
        None => false,
    }
}

pub open spec fn identity_memory_write_requested(args: Json) -> bool {
    has_identity_tag(args) || args.str_at("memory_type"@) == Some("identity_claim"@) || match args.str_at(
        "sensitivity_category"@,
    ) {
        Some(c) => identity_marker(c),
        None => false,
    } || args.flag_at("subject_actor"@)
}

pub open spec fn matches_current(target: Option<Seq<char>>, current: Option<Seq<char>>) -> bool {
    match target {
        None => true,
        Some(t) => current == Some(t),
    }
}

pub open spec fn memory_recall_targets_current(args: Json, ctx: PermissionContext) -> bool {
    let identity = args.nonempty_str_at("identity"@);
    let profile = args.nonempty_str_at("profile"@);
    let person = args.nonempty_str_at("person"@);
    if global_recall_requested(args) {
        false
    } else if identity is None && profile is None && person is None {
        current_identity(ctx) is Some || current_profile(ctx) is Some || current_person(ctx) is Some
    } else {
        matches_current(identity, current_identity(ctx)) && matches_current(profile, current_profile(ctx))
            && matches_current(person, current_person(ctx))
    }
}

pub open spec fn explicit_intent_targets_current(args: Json, ctx: PermissionContext) -> bool {
    matches_current(args.nonempty_str_at("person"@), current_person(ctx)) && matches_current(
        args.nonempty_str_at("profile"@),
        current_profile(ctx),
    ) && matches_current(args.nonempty_str_at("conversation"@), current_conversation(ctx))
}

/// A target is the current one, or has an active person context.
pub open spec fn person_ok(ctx: PermissionContext, st: StoreSnapshot, p: Option<Seq<char>>) -> bool {
    match p {
        None => true,
        Some(p) => current_person(ctx) == Some(p) || person_has_active_profile_context(st, p),
    }
}

pub open spec fn profile_ok(ctx: PermissionContext, st: StoreSnapshot, p: Option<Seq<char>>) -> bool {
    match p {
        None => true,
        Some(p) => current_profile(ctx) == Some(p) || profile_has_active_person_context(st, p),
    }
}

pub open spec fn conversation_ok(ctx: PermissionContext, st: StoreSnapshot, c: Option<Seq<char>>) -> bool {
    match c {
        None => true,
        Some(c) => current_conversation(ctx) == Some(c) || conversation_has_active_person_context(st, c),
    }
}

pub open spec fn intent_targets_current_or_verified(args: Json, ctx: PermissionContext, st: StoreSnapshot) -> bool {
    let person = args.nonempty_str_at("person"@);
    let profile = args.nonempty_str_at("profile"@);
    let conversation = args.nonempty_str_at("conversation"@);
    (person is None && profile is None && conversation is None) || (person_ok(ctx, st, person)
        && profile_ok(ctx, st, profile) && conversation_ok(ctx, st, conversation))
}

pub open spec fn intent_has_target(i: IntentFacts) -> bool {
    i.person is Some || i.profile is Some || i.conversation is Some
}

pub open spec fn intent_id_targets_current_or_verified(id: Seq<char>, ctx: PermissionContext, st: StoreSnapshot) -> bool {
    if id.len() == 0 {
        false
    } else {
        match find_intent(st.intents@, id) {
            None => true,
            Some(i) => intent_has_target(i) && person_ok(ctx, st, opt_view(i.person)) && profile_ok(
                ctx,
                st,
                opt_view(i.profile),
            ) && conversation_ok(ctx, st, opt_view(i.conversation)),
        }
    }
}

pub open spec fn intent_id_targets_current(id: Seq<char>, ctx: PermissionContext, st: StoreSnapshot) -> bool {
    if id.len() == 0 {
        false
    } else {
        match find_intent(st.intents@, id) {
            None => true,
            Some(i) => intent_has_target(i) && matches_current(opt_view(i.person), current_person(ctx))
                && matches_current(opt_view(i.profile), current_profile(ctx)) && matches_current(
                opt_view(i.conversation),
                current_conversation(ctx),
            ),
        }
    }
}

/// `args["intent_id"].as_str().unwrap_or("")`.
pub open spec fn intent_id_arg(args: Json) -> Seq<char> {
    match args.str_at("intent_id"@) {
        Some(s) => s,
        None => Seq::empty(),
    }
}

pub open spec fn update_activates_pending_intent(args: Json, st: StoreSnapshot) -> bool {
    args.str_at("status"@) == Some("active"@) && match args.str_at("intent_id"@) {
        Some(raw) => {
            let id = trim_seq(raw);
            id.len() > 0 && match find_intent(st.intents@, id) {
                Some(i) => i.status@ == "pending_approval"@,
                None => false,
            }
        },
        None => false,
    }
}

/// `args[key].as_str().filter(|s| !s.trim().is_empty())`.
pub open spec fn non_blank_str_at(args: Json, key: Seq<char>) -> Option<Seq<char>> {
    match args.str_at(key) {
        Some(s) => if trim_seq(s).len() > 0 {
            Some(s)
        } else {
            None
        },
        None => None,
    }
}

pub open spec fn social_relation_targets_current_or_verified(args: Json, ctx: PermissionContext, st: StoreSnapshot) -> bool {
    if is_chosen(ctx) {
        true
    } else {
        match (non_blank_str_at(args, "person_a"@), non_blank_str_at(args, "person_b"@)) {
            (Some(a), Some(b)) => !mentions_chosen_person(ctx, a, b) && match current_person(ctx) {
                Some(cur) => (cur == a || cur == b) && person_has_verified_or_strong_profile_context(st, cur),
                None => false,
            },
            _ => false,
        }
    }
}

pub open spec fn subject_is_profile(s: MemorySubject, profile: Seq<char>) -> bool {
    s.subject_type is Profile && s.subject_id@ == profile
}

pub open spec fn memory_is_current_profile_owned_for_forget(m: MemoryFacts, ctx: PermissionContext) -> bool {
    match current_profile(ctx) {
        None => false,
        Some(cur) => {
            &&& !(m.privacy_category is Sensitive || m.privacy_category is Secret)
            &&& !(m.visibility_scope is Person || m.visibility_scope is ChosenPersonOnly
                || m.visibility_scope is Global)
            &&& forall|k: int| 0 <= k < m.subjects.len() ==> subject_is_profile(#[trigger] m.subjects@[k], cur)
            &&& (m.subjects.len() > 0 || match m.source {
                MemorySource::Conversation { profile_id } => opt_view(profile_id) == Some(cur),
                _ => false,
            })
        },
    }
}

/// The person is a subject of the memory, or one of its profile subjects is
/// linked to the person strongly enough for a person-level update.
pub open spec fn memory_promotion_target_is_verified(args: Json, st: StoreSnapshot) -> bool {
    match (args.nonempty_str_at("memory_id"@), args.nonempty_str_at("person"@)) {
        (Some(mid), Some(person)) => match find_memory(st.memories@, mid) {
            None => false,
            Some(m) => (exists|k: int| 0 <= k < m.subjects.len() && (#[trigger] m.subjects@[k]).subject_type is Person
                && m.subjects@[k].subject_id@ == person) || (exists|k: int| 0 <= k < m.subjects.len()
                && (#[trigger] m.subjects@[k]).subject_type is Profile && match link_for_profile(
                st.profile_links@,
                m.subjects@[k].subject_id@,
            ) {
                Some(l) => l.person@ == person && link_allows_person_level_update(l),
                None => false,
            }),
        },
        _ => false,
    }
}

/// An explicit send goes to a reply target seen in the current outreach
/// conversation.
pub open spec fn scheduled_outreach_target_matches(
    ctx: PermissionContext,
    st: StoreSnapshot,
    gateway: Seq<char>,
    external: Seq<char>,
) -> bool {
    ctx.kind == SessionKind::Action(ActionKind::Outreach) && match current_conversation(ctx) {
        None => false,
        Some(conv) => {
            let conv_gateway = match find_conversation(st.conversations@, conv) {
                Some(c) => opt_view(c.gateway_id),
                None => None,
            };
            exists|i: int| 0 <= i < st.conversation_messages.len() && match opt_view(
                (#[trigger] st.conversation_messages@[i]).reply_external_id,
            ) {
                None => false,
                Some(r) => {
                    let g = match opt_view(st.conversation_messages@[i].source_gateway_id) {
                        Some(g) => Some(g),
                        None => conv_gateway,
                    };
                    g == Some(gateway) && r == external
                },
            }
        },
    }
}


// ---------------------------------------------------------------------------
// The decision.
// ---------------------------------------------------------------------------

/// Refusal for a target string outside the current one.
pub open spec fn other_target(target: Option<Seq<char>>, current: Option<Seq<char>>) -> bool {
    match target {
        Some(t) => current != Some(t),
        None => false,
    }
}

/// The first relationship change, in order, that the session may not make.
pub open spec fn reflect_denial(rels: Seq<Json>, ctx: PermissionContext) -> Option<Denial>
    decreases rels.len(),
{
    if rels.len() == 0 {
        None
    } else if rels[0].field("authority"@) is Some && !is_chosen(ctx) {
        Some(Denial::ReflectAuthority)
    } else if !privileged_write(ctx) && other_target(rels[0].nonempty_str_at("person"@), current_person(ctx)) {
        Some(Denial::ReflectOtherPerson)
    } else {
        reflect_denial(rels.drop_first(), ctx)
    }
}

pub open spec fn send_denial(args: Json, ctx: PermissionContext, st: StoreSnapshot) -> Option<Denial> {
    let k = ctx.kind;
    if k == SessionKind::Action(ActionKind::Review) || k == SessionKind::Action(ActionKind::Research)
        || k == SessionKind::Action(ActionKind::Consolidate) || k == SessionKind::Action(
        ActionKind::Ruminate,
    ) {
        Some(Denial::BackgroundSend)
    } else {
        let g = args.str_at("gateway_id"@);
        let e = args.str_at("external_id"@);
        if g is Some != e is Some {
            Some(Denial::IncompleteOutboundTarget)
        } else if g is Some {
            let gw = g->0;
            let ext = e->0;
            let is_current = current_reply_target(ctx) == Some((gw, ext));
            let authority = ctx.authority is ChosenPerson || ctx.authority is Trusted;
            if !is_current && !authority && !scheduled_outreach_target_matches(ctx, st, gw, ext) {
                Some(Denial::OutboundAuthority)
            } else {
                None
            }
        } else {
            None
        }
    }
}

pub open spec fn forget_denial(args: Json, ctx: PermissionContext, st: StoreSnapshot) -> Option<Denial> {
    let id = match args.str_at("memory_id"@) {
        Some(s) => s,
        None => Seq::empty(),
    };
    match find_memory(st.memories@, id) {
        None => None,
        Some(m) => if privileged_write(ctx) {
            None
        } else if m.source is External {
            Some(Denial::ExternalMemory)
        } else if !memory_is_current_profile_owned_for_forget(m, ctx) {
            Some(Denial::ForgetOutsideProfile)
        } else {
            None
        },
    }
}

pub open spec fn update_intent_denial(args: Json, ctx: PermissionContext, st: StoreSnapshot) -> Option<Denial> {
    let id = intent_id_arg(args);
    if !is_chosen(ctx) && update_activates_pending_intent(args, st) {
        Some(Denial::ActivatePendingIntent)
    } else if intent_requires_approval(args) && !is_chosen(ctx) {
        Some(Denial::SensitiveIntentUpdate)
    } else if !is_chosen(ctx) && privileged_write(ctx) && (!intent_id_targets_current_or_verified(id, ctx, st)
        || !intent_targets_current_or_verified(args, ctx, st)) {
        Some(Denial::ThirdPartyOutreach)
    } else if !privileged_write(ctx) && !intent_id_targets_current(id, ctx, st) {
        Some(Denial::UpdateIntentOther)
    } else if !privileged_write(ctx) && !explicit_intent_targets_current(args, ctx) {
        Some(Denial::RetargetIntent)
    } else {
        None
    }
}

/// Whether, and why, a tool call is refused; `None` lets it run.
pub open spec fn check_denial(name: Seq<char>, args: Json, ctx: PermissionContext, st: StoreSnapshot) -> Option<Denial> {
    if name == "send_message"@ {
        send_denial(args, ctx, st)
    } else if name == "update_profile"@ {
        if !privileged_write(ctx) && other_target(args.nonempty_str_at("ref"@), current_profile(ctx)) {
            Some(Denial::OtherProfile)
        } else {
            None
        }
    } else if name == "update_person"@ {
        if !privileged_write(ctx) && other_target(args.nonempty_str_at("ref"@), current_person(ctx)) {
            Some(Denial::OtherPerson)
        } else {
            None
        }
    } else if name == "update_conversation_summary"@ {
        if !privileged_write(ctx) && other_target(args.nonempty_str_at("conversation"@), current_conversation(ctx)) {
            Some(Denial::OtherConversationSummary)
        } else {
            None
        }
    } else if name == "upsert_social_relation"@ {
        if !privileged_write(ctx) {
            Some(Denial::SocialGraphAuthority)
        } else if args.str_at("source_kind"@) == Some("chosen_person_confirmed"@) && !is_chosen(ctx) {
            Some(Denial::ChosenConfirmedRelation)
        } else if !social_relation_targets_current_or_verified(args, ctx, st) {
            Some(Denial::SocialGraphTarget)
        } else {
            None
        }
    } else if name == "form_memory"@ {
        if identity_memory_write_requested(args) && !is_chosen(ctx) {
            Some(Denial::IdentityMemory)
        } else {
            None
        }
    } else if name == "recall_memories"@ {
        if sensitive_recall_requested(args) && !privileged_write(ctx) {
            Some(Denial::SensitiveRecall)
        } else if !privileged_read(ctx) && !memory_recall_targets_current(args, ctx) {
            Some(Denial::RecallOutsideCurrent)
        } else {
            None
        }
    } else if name == "read_messages"@ {
        let target = args.nonempty_str_at("conversation"@);
        if privileged_read(ctx) {
            None
        } else if target is None && current_conversation(ctx) is None {
            Some(Denial::ReadWithoutConversation)
        } else if other_target(target, current_conversation(ctx)) {
            Some(Denial::ReadOtherConversation)
        } else {
            None
        }
    } else if name == "inspect_memory"@ || name == "delete_memory"@ {
        if !is_chosen(ctx) {
            Some(Denial::InspectOrDelete)
        } else {
            None
        }
    } else if name == "forget_memory"@ {
        forget_denial(args, ctx, st)
    } else if name == "promote_profile_memory_to_person"@ {
        if is_chosen(ctx) {
            None
        } else if !kind_in_review_or_consolidate(ctx) {
            Some(Denial::PromoteAuthority)
        } else if !memory_promotion_target_is_verified(args, st) {
            Some(Denial::PromoteUnverified)
        } else {
            None
        }
    } else if name == "demote_person_memory_to_profile"@ {
        if !privileged_write(ctx) {
            Some(Denial::DemoteAuthority)
        } else {
            None
        }
    } else if name == "create_intent"@ {
        if !is_chosen(ctx) && privileged_intent_create(ctx) && !intent_targets_current_or_verified(args, ctx, st) {
            Some(Denial::ThirdPartyOutreach)
        } else if !privileged_intent_create(ctx) && !explicit_intent_targets_current(args, ctx) {
            Some(Denial::CreateIntentOther)
        } else {
            None
        }
    } else if name == "update_intent"@ {
        update_intent_denial(args, ctx, st)
    } else if name == "delete_intent"@ {
        if !privileged_write(ctx) && !intent_id_targets_current(intent_id_arg(args), ctx, st) {
            Some(Denial::CancelIntentOther)
        } else {
            None
        }
    } else if name == "apply_review"@ {
        if ctx.kind != SessionKind::Action(ActionKind::Review) {
            Some(Denial::ApplyReviewOnly)
        } else {
            None
        }
    } else if name == "reflect"@ {
        match args.array_at("relationship_changes"@) {
            Some(rels) => reflect_denial(rels, ctx),
            None => None,
        }
    } else {
        None
    }
}


// ---------------------------------------------------------------------------
// Executable lookups.
// ---------------------------------------------------------------------------

fn clone_opt(o: &Option<String>) -> (r: Option<String>)
    ensures
        opt_view(r) == opt_view(*o),
{
    match o {
        Some(s) => Some(s.clone()),
        None => None,
    }
}

fn opt_eq(a: &Option<String>, b: &String) -> (r: bool)
    ensures
        r == (opt_view(*a) == Some(b@)),
{
    match a {
        Some(x) => *x == *b,
        None => false,
    }
}

fn ctx_person(ctx: &PermissionContext) -> (r: Option<String>)
    ensures
        opt_view(r) == current_person(*ctx),
{
    match &ctx.current {
        Some(m) => clone_opt(&m.person),
        None => None,
    }
}

fn ctx_profile(ctx: &PermissionContext) -> (r: Option<String>)
    ensures
        opt_view(r) == current_profile(*ctx),
{
    match &ctx.current {
        Some(m) => clone_opt(&m.profile),
        None => None,
    }
}

fn ctx_identity(ctx: &PermissionContext) -> (r: Option<String>)
    ensures
        opt_view(r) == current_identity(*ctx),
{
    match &ctx.current {
        Some(m) => clone_opt(&m.identity),
        None => None,
    }
}

fn ctx_conversation(ctx: &PermissionContext) -> (r: Option<String>)
    ensures
        opt_view(r) == current_conversation(*ctx),
{
    match &ctx.conversation {
        Some(c) => Some(c.clone()),
        None => match &ctx.current {
            Some(m) => Some(m.conversation.clone()),
            None => None,
        },
    }
}

fn is_chosen_exec(ctx: &PermissionContext) -> (r: bool)
    ensures
        r == is_chosen(*ctx),
{
    matches!(ctx.authority, Authority::ChosenPerson)
}

fn review_or_consolidate_exec(ctx: &PermissionContext) -> (r: bool)
    ensures
        r == kind_in_review_or_consolidate(*ctx),
{
    matches!(ctx.kind, SessionKind::Action(ActionKind::Review) | SessionKind::Action(ActionKind::Consolidate))
}

fn privileged_write_exec(ctx: &PermissionContext) -> (r: bool)
    ensures
        r == privileged_write(*ctx),
{
    is_chosen_exec(ctx) || review_or_consolidate_exec(ctx)
}

fn privileged_read_exec(ctx: &PermissionContext) -> (r: bool)
    ensures
        r == privileged_read(*ctx),
{
    privileged_write_exec(ctx) || matches!(ctx.kind, SessionKind::Action(ActionKind::Ruminate))
}

fn privileged_intent_create_exec(ctx: &PermissionContext) -> (r: bool)
    ensures
        r == privileged_intent_create(*ctx),
{
    privileged_write_exec(ctx) || matches!(ctx.kind, SessionKind::Action(ActionKind::Ruminate))
}

/// Whether `value` equals `current`, both possibly absent targets.
fn matches_current_exec(target: &Option<String>, current: &Option<String>) -> (r: bool)
    ensures
        r == matches_current(opt_view(*target), opt_view(*current)),
{
    match target {
        None => true,
        Some(t) => opt_eq(current, t),
    }
}

fn other_target_exec(target: &Option<String>, current: &Option<String>) -> (r: bool)
    ensures
        r == other_target(opt_view(*target), opt_view(*current)),
{
    match target {
        Some(t) => !opt_eq(current, t),
        None => false,
    }
}

fn find_memory_exec<'a>(ms: &'a Vec<MemoryFacts>, id: &String) -> (r: Option<&'a MemoryFacts>)
    ensures
        r is Some <==> find_memory(ms@, id@) is Some,
        r is Some ==> *r->0 == find_memory(ms@, id@)->0,
{
    let mut i: usize = 0;
    assert(ms@.skip(0) =~= ms@);
    while i < ms.len()
        invariant
            0 <= i <= ms.len(),
            find_memory(ms@, id@) == find_memory(ms@.skip(i as int), id@),
        decreases ms.len() - i,
    {
        assert(ms@.skip(i as int).drop_first() =~= ms@.skip(i + 1));
        assert(ms@.skip(i as int)[0] == ms@[i as int]);
        if ms[i].id == *id {
            return Some(&ms[i]);
        }
        i = i + 1;
    }
    None
}

fn find_intent_exec<'a>(is: &'a Vec<IntentFacts>, id: &String) -> (r: Option<&'a IntentFacts>)
    ensures
        r is Some <==> find_intent(is@, id@) is Some,
        r is Some ==> *r->0 == find_intent(is@, id@)->0,
{
    let mut i: usize = 0;
    assert(is@.skip(0) =~= is@);
    while i < is.len()
        invariant
            0 <= i <= is.len(),
            find_intent(is@, id@) == find_intent(is@.skip(i as int), id@),
        decreases is.len() - i,
    {
        assert(is@.skip(i as int).drop_first() =~= is@.skip(i + 1));
        assert(is@.skip(i as int)[0] == is@[i as int]);
        if is[i].id == *id {
            return Some(&is[i]);
        }
        i = i + 1;
    }
    None
}

fn link_for_profile_exec<'a>(ls: &'a Vec<ProfileLink>, profile: &String) -> (r: Option<&'a ProfileLink>)
    ensures
        r is Some <==> link_for_profile(ls@, profile@) is Some,
        r is Some ==> *r->0 == link_for_profile(ls@, profile@)->0,
{
    let mut i: usize = 0;
    assert(ls@.skip(0) =~= ls@);
    while i < ls.len()
        invariant
            0 <= i <= ls.len(),
            link_for_profile(ls@, profile@) == link_for_profile(ls@.skip(i as int), profile@),
        decreases ls.len() - i,
    {
        assert(ls@.skip(i as int).drop_first() =~= ls@.skip(i + 1));
        assert(ls@.skip(i as int)[0] == ls@[i as int]);
        if ls[i].profile == *profile {
            return Some(&ls[i]);
        }
        i = i + 1;
    }
    None
}

fn find_conversation_exec<'a>(cs: &'a Vec<ConversationFacts>, id: &String) -> (r: Option<&'a ConversationFacts>)
    ensures
        r is Some <==> find_conversation(cs@, id@) is Some,
        r is Some ==> *r->0 == find_conversation(cs@, id@)->0,
{
    let mut i: usize = 0;
    assert(cs@.skip(0) =~= cs@);
    while i < cs.len()
        invariant
            0 <= i <= cs.len(),
            find_conversation(cs@, id@) == find_conversation(cs@.skip(i as int), id@),
        decreases cs.len() - i,
    {
        assert(cs@.skip(i as int).drop_first() =~= cs@.skip(i + 1));
        assert(cs@.skip(i as int)[0] == cs@[i as int]);
        if cs[i].id == *id {
            return Some(&cs[i]);
        }
        i = i + 1;
    }
    None
}

fn is_active_exec(s: &LinkStatus) -> (r: bool)
    ensures
        r == s.is_active_person_context(),
{
    matches!(s, LinkStatus::Verified | LinkStatus::Likely)
}

/// A link allows a person-level update: verified, or likely with strong confidence.
pub fn person_link_allows_person_level_update(l: &ProfileLink) -> (r: bool)
    ensures
        r == link_allows_person_level_update(*l),
{
    match l.status {
        LinkStatus::Verified => true,
        LinkStatus::Likely => l.confidence_micros >= STRONG_LIKELY_PERSON_LINK_CONFIDENCE_MICROS,
        _ => false,
    }
}

fn person_has_active_profile_context_exec(st: &StoreSnapshot, person: &String) -> (r: bool)
    ensures
        r == person_has_active_profile_context(*st, person@),
{
    let mut i: usize = 0;
    while i < st.profile_links.len()
        invariant
            0 <= i <= st.profile_links.len(),
            forall|j: int| 0 <= j < i ==> !(#[trigger] st.profile_links@[j].person@ == person@
                && st.profile_links@[j].status.is_active_person_context()),
        decreases st.profile_links.len() - i,
    {
        if st.profile_links[i].person == *person && is_active_exec(&st.profile_links[i].status) {
            return true;
        }
        i = i + 1;
    }
    false
}

fn person_has_verified_or_strong_exec(st: &StoreSnapshot, person: &String) -> (r: bool)
    ensures
        r == person_has_verified_or_strong_profile_context(*st, person@),
{
    let mut i: usize = 0;
    while i < st.profile_links.len()
        invariant
            0 <= i <= st.profile_links.len(),
            forall|j: int| 0 <= j < i ==> !(#[trigger] st.profile_links@[j].person@ == person@
                && link_allows_person_level_update(st.profile_links@[j])),
        decreases st.profile_links.len() - i,
    {
        if st.profile_links[i].person == *person && person_link_allows_person_level_update(&st.profile_links[i]) {
            return true;
        }
        i = i + 1;
    }
    false
}

fn profile_has_active_person_context_exec(st: &StoreSnapshot, profile: &String) -> (r: bool)
    ensures
        r == profile_has_active_person_context(*st, profile@),
{
    match link_for_profile_exec(&st.profile_links, profile) {
        Some(l) => is_active_exec(&l.status),
        None => false,
    }
}

fn conversation_has_active_person_context_exec(st: &StoreSnapshot, c: &String) -> (r: bool)
    ensures
        r == conversation_has_active_person_context(*st, c@),
{
    match find_conversation_exec(&st.conversations, c) {
        None => false,
        Some(summary) => match &summary.person {
            Some(p) => person_has_active_profile_context_exec(st, p),
            None => match &summary.profile {
                Some(pr) => profile_has_active_person_context_exec(st, pr),
                None => false,
            },
        },
    }
}


// ---------------------------------------------------------------------------
// Executable argument predicates.
// ---------------------------------------------------------------------------

fn sensitive_needle_list() -> (r: Vec<&'static str>)
    ensures
        r@.len() == sensitive_needles().len(),
        forall|i: int| 0 <= i < r@.len() ==> (#[trigger] r@[i])@ == sensitive_needles()[i],
{
    let v: Vec<&'static str> = vec![
        "password", "passcode", "token", "secret", "confidential", "private", "medical",
        "health", "diagnosis", "therapy", "legal", "lawyer", "financial", "finance",
        "bank", "tax", "payment", "address", "social security", "ssn", "identity",
    ];
    v
}

/// Whether proactive-outreach text touches a sensitive subject.
pub fn sensitive_outreach_text(text: Option<&str>) -> (r: bool)
    ensures
        r == (text is Some && is_sensitive_text(text->0@)),
{
    let t = match text {
        Some(t) => t,
        None => return false,
    };
    let lower = ascii_lowercase_chars(t);
    let needles = sensitive_needle_list();
    let mut i: usize = 0;
    while i < needles.len()
        invariant
            0 <= i <= needles.len(),
            needles@.len() == sensitive_needles().len(),
            forall|k: int| 0 <= k < needles@.len() ==> (#[trigger] needles@[k])@ == sensitive_needles()[k],
            lower@ == ascii_lower_seq(t@),
            text is Some && text->0@ == t@,
            forall|k: int| 0 <= k < i ==> !contains_seq(ascii_lower_seq(t@), #[trigger] sensitive_needles()[k]),
        decreases needles.len() - i,
    {
        let n = chars_of(needles[i]);
        if seq_contains(&lower, &n) {
            assert(contains_seq(ascii_lower_seq(t@), sensitive_needles()[i as int]));
            assert(is_sensitive_text(t@));
            return true;
        }
        i = i + 1;
    }
    false
}

/// Whether a tag or category names the actor's own identity.
pub fn is_identity_memory_marker(value: &str) -> (r: bool)
    ensures
        r == identity_marker(value@),
{
    let l = crate::text::string_of(ascii_lowercase_chars(value).as_slice());
    l == owned("identity") || l == owned("identity_claim") || l == owned("self") || l == owned("name")
}

fn opt_str_is(o: &Option<String>, lit: &str) -> (r: bool)
    ensures
        r == (opt_view(*o) == Some(lit@)),
{
    match o {
        Some(s) => *s == owned(lit),
        None => false,
    }
}

/// Whether creating or updating an intent needs chosen-person approval.
pub fn intent_requires_chosen_person_approval(args: &Json) -> (r: bool)
    ensures
        r == intent_requires_approval(*args),
{
    let task = args.str_field("task");
    let condition = args.str_field("condition");
    let t = match &task {
        Some(s) => Some(s.as_str()),
        None => None,
    };
    let c = match &condition {
        Some(s) => Some(s.as_str()),
        None => None,
    };
    args.flag("requires_chosen_person_approval") || args.flag("sensitive") || sensitive_outreach_text(t)
        || sensitive_outreach_text(c)
}

fn global_recall_requested_exec(args: &Json) -> (r: bool)
    ensures
        r == global_recall_requested(*args),
{
    opt_str_is(&args.str_field("scope"), "global") || args.flag("global")
}

fn sensitive_recall_requested_exec(args: &Json) -> (r: bool)
    ensures
        r == sensitive_recall_requested(*args),
{
    args.flag("include_sensitive") || match args.micros_field("max_sensitivity") {
        Some(m) => m > DEFAULT_MAX_SENSITIVITY_MICROS,
        None => false,
    }
}

fn has_identity_tag_exec(args: &Json) -> (r: bool)
    ensures
        r == has_identity_tag(*args),
{
    let v = match args.get("tags") {
        Some(v) => v,
        None => return false,
    };
    assert(*v == args.field("tags"@)->0);
    match v {
        Json::Array(items) => {
            let mut i: usize = 0;
            while i < items.len()
                invariant
                    0 <= i <= items.len(),
                    args.array_at("tags"@) == Some(items@),
                    forall|k: int| 0 <= k < i ==> !match crate::json::spec_as_str(#[trigger] items@[k]) {
                        Some(t) => identity_marker(t),
                        None => false,
                    },
                decreases items.len() - i,
            {
                if let Json::Str(t) = &items[i] {
                    if is_identity_memory_marker(t.as_str()) {
                        assert(crate::json::spec_as_str(items@[i as int]) == Some(t@));
                        return true;
                    }
                }
                i = i + 1;
            }
            false
        },
        _ => false,
    }
}

fn identity_memory_write_requested_exec(args: &Json) -> (r: bool)
    ensures
        r == identity_memory_write_requested(*args),
{
    let category = match args.str_field("sensitivity_category") {
        Some(c) => is_identity_memory_marker(c.as_str()),
        None => false,
    };
    has_identity_tag_exec(args) || opt_str_is(&args.str_field("memory_type"), "identity_claim") || category
        || args.flag("subject_actor")
}

fn memory_recall_targets_current_exec(args: &Json, ctx: &PermissionContext) -> (r: bool)
    ensures
        r == memory_recall_targets_current(*args, *ctx),
{
    if global_recall_requested_exec(args) {
        return false;
    }
    let identity = args.nonempty_str_field("identity");
    let profile = args.nonempty_str_field("profile");
    let person = args.nonempty_str_field("person");
    let ci = ctx_identity(ctx);
    let cp = ctx_profile(ctx);
    let cn = ctx_person(ctx);
    if identity.is_none() && profile.is_none() && person.is_none() {
        return ci.is_some() || cp.is_some() || cn.is_some();
    }
    matches_current_exec(&identity, &ci) && matches_current_exec(&profile, &cp) && matches_current_exec(&person, &cn)
}

fn explicit_intent_targets_current_exec(args: &Json, ctx: &PermissionContext) -> (r: bool)
    ensures
        r == explicit_intent_targets_current(*args, *ctx),
{
    matches_current_exec(&args.nonempty_str_field("person"), &ctx_person(ctx)) && matches_current_exec(
        &args.nonempty_str_field("profile"),
        &ctx_profile(ctx),
    ) && matches_current_exec(&args.nonempty_str_field("conversation"), &ctx_conversation(ctx))
}

fn person_ok_exec(ctx: &PermissionContext, st: &StoreSnapshot, p: &Option<String>) -> (r: bool)
    ensures
        r == person_ok(*ctx, *st, opt_view(*p)),
{
    match p {
        None => true,
        Some(p) => opt_eq(&ctx_person(ctx), p) || person_has_active_profile_context_exec(st, p),
    }
}

fn profile_ok_exec(ctx: &PermissionContext, st: &StoreSnapshot, p: &Option<String>) -> (r: bool)
    ensures
        r == profile_ok(*ctx, *st, opt_view(*p)),
{
    match p {
        None => true,
        Some(p) => opt_eq(&ctx_profile(ctx), p) || profile_has_active_person_context_exec(st, p),
    }
}

fn conversation_ok_exec(ctx: &PermissionContext, st: &StoreSnapshot, c: &Option<String>) -> (r: bool)
    ensures
        r == conversation_ok(*ctx, *st, opt_view(*c)),
{
    match c {
        None => true,
        Some(c) => opt_eq(&ctx_conversation(ctx), c) || conversation_has_active_person_context_exec(st, c),
    }
}

fn intent_targets_current_or_verified_exec(args: &Json, ctx: &PermissionContext, st: &StoreSnapshot) -> (r: bool)
    ensures
        r == intent_targets_current_or_verified(*args, *ctx, *st),
{
    let person = args.nonempty_str_field("person");
    let profile = args.nonempty_str_field("profile");
    let conversation = args.nonempty_str_field("conversation");
    if person.is_none() && profile.is_none() && conversation.is_none() {
        return true;
    }
    person_ok_exec(ctx, st, &person) && profile_ok_exec(ctx, st, &profile) && conversation_ok_exec(
        ctx,
        st,
        &conversation,
    )
}

fn intent_id_targets_current_or_verified_exec(id: &String, ctx: &PermissionContext, st: &StoreSnapshot) -> (r: bool)
    ensures
        r == intent_id_targets_current_or_verified(id@, *ctx, *st),
{
    if id.as_str().is_empty() {
        return false;
    }
    match find_intent_exec(&st.intents, id) {
        None => true,
        Some(i) => {
            (i.person.is_some() || i.profile.is_some() || i.conversation.is_some()) && person_ok_exec(
                ctx,
                st,
                &i.person,
            ) && profile_ok_exec(ctx, st, &i.profile) && conversation_ok_exec(ctx, st, &i.conversation)
        },
    }
}

fn intent_id_targets_current_exec(id: &String, ctx: &PermissionContext, st: &StoreSnapshot) -> (r: bool)
    ensures
        r == intent_id_targets_current(id@, *ctx, *st),
{
    if id.as_str().is_empty() {
        return false;
    }
    match find_intent_exec(&st.intents, id) {
        None => true,
        Some(i) => {
            (i.person.is_some() || i.profile.is_some() || i.conversation.is_some()) && matches_current_exec(
                &i.person,
                &ctx_person(ctx),
            ) && matches_current_exec(&i.profile, &ctx_profile(ctx)) && matches_current_exec(
                &i.conversation,
                &ctx_conversation(ctx),
            )
        },
    }
}

fn intent_id_arg_exec(args: &Json) -> (r: String)
    ensures
        r@ == intent_id_arg(*args),
{
    match args.str_field("intent_id") {
        Some(s) => s,
        None => String::new(),
    }
}

fn update_activates_pending_intent_exec(args: &Json, st: &StoreSnapshot) -> (r: bool)
    ensures
        r == update_activates_pending_intent(*args, *st),
{
    if !opt_str_is(&args.str_field("status"), "active") {
        return false;
    }
    let raw = match args.str_field("intent_id") {
        Some(raw) => raw,
        None => return false,
    };
    let id = crate::text::trim(raw.as_str());
    if id.as_str().is_empty() {
        return false;
    }
    match find_intent_exec(&st.intents, &id) {
        Some(i) => i.status == owned("pending_approval"),
        None => false,
    }
}

fn non_blank_str_field(args: &Json, key: &str) -> (r: Option<String>)
    ensures
        opt_view(r) == non_blank_str_at(*args, key@),
{
    match args.str_field(key) {
        Some(s) => if is_blank(s.as_str()) {
            None
        } else {
            Some(s)
        },
        None => None,
    }
}

fn mentions_chosen_person_exec(ctx: &PermissionContext, a: &String, b: &String) -> (r: bool)
    ensures
        r == mentions_chosen_person(*ctx, a@, b@),
{
    let mut i: usize = 0;
    while i < ctx.chosen_people.len()
        invariant
            0 <= i <= ctx.chosen_people.len(),
            forall|k: int| 0 <= k < i ==> !(#[trigger] ctx.chosen_people@[k]@ == a@ || ctx.chosen_people@[k]@ == b@),
        decreases ctx.chosen_people.len() - i,
    {
        if ctx.chosen_people[i] == *a || ctx.chosen_people[i] == *b {
            return true;
        }
        i = i + 1;
    }
    false
}

fn social_relation_targets_current_or_verified_exec(args: &Json, ctx: &PermissionContext, st: &StoreSnapshot) -> (r: bool)
    ensures
        r == social_relation_targets_current_or_verified(*args, *ctx, *st),
{
    if is_chosen_exec(ctx) {
        return true;
    }
    let a = match non_blank_str_field(args, "person_a") {
        Some(a) => a,
        None => return false,
    };
    let b = match non_blank_str_field(args, "person_b") {
        Some(b) => b,
        None => return false,
    };
    if mentions_chosen_person_exec(ctx, &a, &b) {
        return false;
    }
    let cur = match ctx_person(ctx) {
        Some(c) => c,
        None => return false,
    };
    if cur != a && cur != b {
        return false;
    }
    person_has_verified_or_strong_exec(st, &cur)
}


#[verifier::loop_isolation(false)]
fn memory_is_current_profile_owned_for_forget_exec(m: &MemoryFacts, ctx: &PermissionContext) -> (r: bool)
    ensures
        r == memory_is_current_profile_owned_for_forget(*m, *ctx),
{
    let cur = match ctx_profile(ctx) {
        Some(c) => c,
        None => return false,
    };
    if matches!(m.privacy_category, PrivacyCategory::Sensitive | PrivacyCategory::Secret) || matches!(
        m.visibility_scope,
        VisibilityScope::Person | VisibilityScope::ChosenPersonOnly | VisibilityScope::Global
    ) {
        return false;
    }
    let mut i: usize = 0;
    while i < m.subjects.len()
        invariant
            0 <= i <= m.subjects.len(),
            forall|k: int| 0 <= k < i ==> subject_is_profile(#[trigger] m.subjects@[k], cur@),
        decreases m.subjects.len() - i,
    {
        let subject = &m.subjects[i];
        if !(matches!(subject.subject_type, MemorySubjectType::Profile) && subject.subject_id == cur) {
            assert(!subject_is_profile(m.subjects@[i as int], cur@));
            return false;
        }
        i = i + 1;
    }
    if m.subjects.len() > 0 {
        return true;
    }
    match &m.source {
        MemorySource::Conversation { profile_id } => opt_eq(profile_id, &cur),
        _ => false,
    }
}

#[verifier::loop_isolation(false)]
fn memory_promotion_target_is_verified_exec(args: &Json, st: &StoreSnapshot) -> (r: bool)
    ensures
        r == memory_promotion_target_is_verified(*args, *st),
{
    let mid = match args.nonempty_str_field("memory_id") {
        Some(m) => m,
        None => return false,
    };
    let person = match args.nonempty_str_field("person") {
        Some(p) => p,
        None => return false,
    };
    let m = match find_memory_exec(&st.memories, &mid) {
        Some(m) => m,
        None => return false,
    };
    let mut i: usize = 0;
    while i < m.subjects.len()
        invariant
            0 <= i <= m.subjects.len(),
            forall|k: int| 0 <= k < i ==> !((#[trigger] m.subjects@[k]).subject_type is Person
                && m.subjects@[k].subject_id@ == person@),
        decreases m.subjects.len() - i,
    {
        if matches!(m.subjects[i].subject_type, MemorySubjectType::Person) && m.subjects[i].subject_id == person {
            return true;
        }
        i = i + 1;
    }
    let mut j: usize = 0;
    while j < m.subjects.len()
        invariant
            0 <= j <= m.subjects.len(),
            forall|k: int| 0 <= k < j ==> !((#[trigger] m.subjects@[k]).subject_type is Profile && match link_for_profile(
                st.profile_links@,
                m.subjects@[k].subject_id@,
            ) {
                Some(l) => l.person@ == person@ && link_allows_person_level_update(l),
                None => false,
            }),
        decreases m.subjects.len() - j,
    {
        if matches!(m.subjects[j].subject_type, MemorySubjectType::Profile) {
            if let Some(l) = link_for_profile_exec(&st.profile_links, &m.subjects[j].subject_id) {
                if l.person == person && person_link_allows_person_level_update(l) {
                    return true;
                }
            }
        }
        j = j + 1;
    }
    false
}

fn reply_target_is(ctx: &PermissionContext, gw: &String, ext: &String) -> (r: bool)
    ensures
        r == (current_reply_target(*ctx) == Some((gw@, ext@))),
{
    match &ctx.current {
        Some(m) => match &m.reply_target {
            Some(t) => t.0 == *gw && t.1 == *ext,
            None => false,
        },
        None => false,
    }
}

#[verifier::loop_isolation(false)]
fn scheduled_outreach_target_matches_exec(ctx: &PermissionContext, st: &StoreSnapshot, gw: &String, ext: &String) -> (r: bool)
    ensures
        r == scheduled_outreach_target_matches(*ctx, *st, gw@, ext@),
{
    if !matches!(ctx.kind, SessionKind::Action(ActionKind::Outreach)) {
        return false;
    }
    let conv = match ctx_conversation(ctx) {
        Some(c) => c,
        None => return false,
    };
    let conv_gateway: Option<String> = match find_conversation_exec(&st.conversations, &conv) {
        Some(c) => clone_opt(&c.gateway_id),
        None => None,
    };
    let ghost cg = match find_conversation(st.conversations@, conv@) {
        Some(c) => opt_view(c.gateway_id),
        None => None,
    };
    assert(opt_view(conv_gateway) == cg);
    let mut i: usize = 0;
    while i < st.conversation_messages.len()
        invariant
            0 <= i <= st.conversation_messages.len(),
            opt_view(conv_gateway) == cg,
            forall|k: int| 0 <= k < i ==> !match opt_view((#[trigger] st.conversation_messages@[k]).reply_external_id) {
                None => false,
                Some(r) => {
                    let g = match opt_view(st.conversation_messages@[k].source_gateway_id) {
                        Some(g) => Some(g),
                        None => cg,
                    };
                    g == Some(gw@) && r == ext@
                },
            },
        decreases st.conversation_messages.len() - i,
    {
        let msg = &st.conversation_messages[i];
        if let Some(r) = &msg.reply_external_id {
            let gateway_matches = match &msg.source_gateway_id {
                Some(g) => *g == *gw,
                None => opt_eq(&conv_gateway, gw),
            };
            if gateway_matches && *r == *ext {
                return true;
            }
        }
        i = i + 1;
    }
    false
}

fn reflect_denial_exec(rels: &Vec<Json>, ctx: &PermissionContext) -> (r: Option<Denial>)
    ensures
        r == reflect_denial(rels@, *ctx),
{
    let chosen = is_chosen_exec(ctx);
    let privileged = privileged_write_exec(ctx);
    let cur = ctx_person(ctx);
    let mut i: usize = 0;
    assert(rels@.skip(0) =~= rels@);
    while i < rels.len()
        invariant
            0 <= i <= rels.len(),
            chosen == is_chosen(*ctx),
            privileged == privileged_write(*ctx),
            opt_view(cur) == current_person(*ctx),
            reflect_denial(rels@, *ctx) == reflect_denial(rels@.skip(i as int), *ctx),
        decreases rels.len() - i,
    {
        assert(rels@.skip(i as int).drop_first() =~= rels@.skip(i + 1));
        assert(rels@.skip(i as int)[0] == rels@[i as int]);
        let r = &rels[i];
        if r.get("authority").is_some() && !chosen {
            return Some(Denial::ReflectAuthority);
        }
        if !privileged && other_target_exec(&r.nonempty_str_field("person"), &cur) {
            return Some(Denial::ReflectOtherPerson);
        }
        i = i + 1;
    }
    None
}

fn send_denial_exec(args: &Json, ctx: &PermissionContext, st: &StoreSnapshot) -> (r: Option<Denial>)
    ensures
        r == send_denial(*args, *ctx, *st),
{
    if matches!(
        ctx.kind,
        SessionKind::Action(ActionKind::Review) | SessionKind::Action(ActionKind::Research)
            | SessionKind::Action(ActionKind::Consolidate) | SessionKind::Action(ActionKind::Ruminate)
    ) {
        return Some(Denial::BackgroundSend);
    }
    let g = args.str_field("gateway_id");
    let e = args.str_field("external_id");
    if g.is_some() != e.is_some() {
        return Some(Denial::IncompleteOutboundTarget);
    }
    match (g, e) {
        (Some(gw), Some(ext)) => {
            let is_current = reply_target_is(ctx, &gw, &ext);
            let authority = matches!(ctx.authority, Authority::ChosenPerson | Authority::Trusted);
            let scheduled = scheduled_outreach_target_matches_exec(ctx, st, &gw, &ext);
            if !is_current && !authority && !scheduled {
                Some(Denial::OutboundAuthority)
            } else {
                None
            }
        },
        _ => None,
    }
}

fn forget_denial_exec(args: &Json, ctx: &PermissionContext, st: &StoreSnapshot) -> (r: Option<Denial>)
    ensures
        r == forget_denial(*args, *ctx, *st),
{
    let id = match args.str_field("memory_id") {
        Some(s) => s,
        None => String::new(),
    };
    match find_memory_exec(&st.memories, &id) {
        None => None,
        Some(m) => {
            if privileged_write_exec(ctx) {
                None
            } else if matches!(m.source, MemorySource::External) {
                Some(Denial::ExternalMemory)
            } else if !memory_is_current_profile_owned_for_forget_exec(m, ctx) {
                Some(Denial::ForgetOutsideProfile)
            } else {
                None
            }
        },
    }
}

fn update_intent_denial_exec(args: &Json, ctx: &PermissionContext, st: &StoreSnapshot) -> (r: Option<Denial>)
    ensures
        r == update_intent_denial(*args, *ctx, *st),
{
    let chosen = is_chosen_exec(ctx);
    let privileged = privileged_write_exec(ctx);
    let id = intent_id_arg_exec(args);
    if !chosen && update_activates_pending_intent_exec(args, st) {
        return Some(Denial::ActivatePendingIntent);
    }
    if intent_requires_chosen_person_approval(args) && !chosen {
        return Some(Denial::SensitiveIntentUpdate);
    }
    if !chosen && privileged {
        if !intent_id_targets_current_or_verified_exec(&id, ctx, st) || !intent_targets_current_or_verified_exec(
            args,
            ctx,
            st,
        ) {
            return Some(Denial::ThirdPartyOutreach);
        }
    }
    if !privileged {
        if !intent_id_targets_current_exec(&id, ctx, st) {
            return Some(Denial::UpdateIntentOther);
        }
        if !explicit_intent_targets_current_exec(args, ctx) {
            return Some(Denial::RetargetIntent);
        }
    }
    None
}

/// Decides whether a tool call may run: `None` lets it run, `Some(d)` refuses
/// it for reason `d`.
pub fn check_decision(name: &str, args: &Json, ctx: &PermissionContext, st: &StoreSnapshot) -> (r: Option<Denial>)
    ensures
        r == check_denial(name@, *args, *ctx, *st),
{
    let n = owned(name);
    if n == owned("send_message") {
        send_denial_exec(args, ctx, st)
    } else if n == owned("update_profile") {
        if !privileged_write_exec(ctx) && other_target_exec(&args.nonempty_str_field("ref"), &ctx_profile(ctx)) {
            Some(Denial::OtherProfile)
        } else {
            None
        }
    } else if n == owned("update_person") {
        if !privileged_write_exec(ctx) && other_target_exec(&args.nonempty_str_field("ref"), &ctx_person(ctx)) {
            Some(Denial::OtherPerson)
        } else {
            None
        }
    } else if n == owned("update_conversation_summary") {
        if !privileged_write_exec(ctx) && other_target_exec(
            &args.nonempty_str_field("conversation"),
            &ctx_conversation(ctx),
        ) {
            Some(Denial::OtherConversationSummary)
        } else {
            None
        }
    } else if n == owned("upsert_social_relation") {
        if !privileged_write_exec(ctx) {
            Some(Denial::SocialGraphAuthority)
        } else if opt_str_is(&args.str_field("source_kind"), "chosen_person_confirmed") && !is_chosen_exec(ctx) {
            Some(Denial::ChosenConfirmedRelation)
        } else if !social_relation_targets_current_or_verified_exec(args, ctx, st) {
            Some(Denial::SocialGraphTarget)
        } else {
            None
        }
    } else if n == owned("form_memory") {
        if identity_memory_write_requested_exec(args) && !is_chosen_exec(ctx) {
            Some(Denial::IdentityMemory)
        } else {
            None
        }
    } else if n == owned("recall_memories") {
        if sensitive_recall_requested_exec(args) && !privileged_write_exec(ctx) {
            Some(Denial::SensitiveRecall)
        } else if !privileged_read_exec(ctx) && !memory_recall_targets_current_exec(args, ctx) {
            Some(Denial::RecallOutsideCurrent)
        } else {
            None
        }
    } else if n == owned("read_messages") {
        let target = args.nonempty_str_field("conversation");
        let current = ctx_conversation(ctx);
        if privileged_read_exec(ctx) {
            None
        } else if target.is_none() && current.is_none() {
            Some(Denial::ReadWithoutConversation)
        } else if other_target_exec(&target, &current) {
            Some(Denial::ReadOtherConversation)
        } else {
            None
        }
    } else if n == owned("inspect_memory") || n == owned("delete_memory") {
        if !is_chosen_exec(ctx) {
            Some(Denial::InspectOrDelete)
        } else {
            None
        }
    } else if n == owned("forget_memory") {
        forget_denial_exec(args, ctx, st)
    } else if n == owned("promote_profile_memory_to_person") {
        if is_chosen_exec(ctx) {
            None
        } else if !review_or_consolidate_exec(ctx) {
            Some(Denial::PromoteAuthority)
        } else if !memory_promotion_target_is_verified_exec(args, st) {
            Some(Denial::PromoteUnverified)
        } else {
            None
        }
    } else if n == owned("demote_person_memory_to_profile") {
        if !privileged_write_exec(ctx) {
            Some(Denial::DemoteAuthority)
        } else {
            None
        }
    } else if n == owned("create_intent") {
        if !is_chosen_exec(ctx) && privileged_intent_create_exec(ctx) && !intent_targets_current_or_verified_exec(
            args,
            ctx,
            st,
        ) {
            Some(Denial::ThirdPartyOutreach)
        } else if !privileged_intent_create_exec(ctx) && !explicit_intent_targets_current_exec(args, ctx) {
            Some(Denial::CreateIntentOther)
        } else {
            None
        }
    } else if n == owned("update_intent") {
        update_intent_denial_exec(args, ctx, st)
    } else if n == owned("delete_intent") {
        if !privileged_write_exec(ctx) && !intent_id_targets_current_exec(&intent_id_arg_exec(args), ctx, st) {
            Some(Denial::CancelIntentOther)
        } else {
            None
        }
    } else if n == owned("apply_review") {
        if !matches!(ctx.kind, SessionKind::Action(ActionKind::Review)) {
            Some(Denial::ApplyReviewOnly)
        } else {
            None
        }
    } else if n == owned("reflect") {
        match args.get("relationship_changes") {
            Some(Json::Array(rels)) => reflect_denial_exec(rels, ctx),
            _ => None,
        }
    } else {
        None
    }
}

/// Checks a tool call: `Ok(())` lets it run, `Err(message)` refuses it with
/// the message that answers the call.
pub fn check(name: &str, args: &Json, ctx: &PermissionContext, st: &StoreSnapshot) -> (r: Result<(), String>)
    ensures
        r is Ok <==> check_denial(name@, *args, *ctx, *st) is None,
        r is Err ==> r->Err_0@ == denial_text(check_denial(name@, *args, *ctx, *st)->0),
{
    match check_decision(name, args, ctx, st) {
        None => Ok(()),
        Some(d) => Err(d.message()),
    }
}


// ---------------------------------------------------------------------------
// Laws of the permission policy.
// ---------------------------------------------------------------------------

proof fn lemma_reflect_chosen(rels: Seq<Json>, ctx: PermissionContext)
    requires
        is_chosen(ctx),
    ensures
        reflect_denial(rels, ctx) is None,
    decreases rels.len(),
{
    if rels.len() > 0 {
        lemma_reflect_chosen(rels.drop_first(), ctx);
    }
}

/// The tool names that the policy checks are pairwise distinct.
proof fn lemma_tool_names_distinct()
    ensures
        "send_message"@ != "inspect_memory"@,
        "update_profile"@ != "inspect_memory"@,
        "update_person"@ != "inspect_memory"@,
        "update_conversation_summary"@ != "inspect_memory"@,
        "upsert_social_relation"@ != "inspect_memory"@,
        "form_memory"@ != "inspect_memory"@,
        "recall_memories"@ != "inspect_memory"@,
        "read_messages"@ != "inspect_memory"@,
        "send_message"@ != "delete_memory"@,
        "update_profile"@ != "delete_memory"@,
        "update_person"@ != "delete_memory"@,
        "update_conversation_summary"@ != "delete_memory"@,
        "upsert_social_relation"@ != "delete_memory"@,
        "form_memory"@ != "delete_memory"@,
        "recall_memories"@ != "delete_memory"@,
        "read_messages"@ != "delete_memory"@,
        "inspect_memory"@ != "delete_memory"@,
        "send_message"@ != "apply_review"@,
        "update_profile"@ != "apply_review"@,
        "update_person"@ != "apply_review"@,
        "update_conversation_summary"@ != "apply_review"@,
        "upsert_social_relation"@ != "apply_review"@,
        "form_memory"@ != "apply_review"@,
        "recall_memories"@ != "apply_review"@,
        "read_messages"@ != "apply_review"@,
        "inspect_memory"@ != "apply_review"@,
        "delete_memory"@ != "apply_review"@,
        "forget_memory"@ != "apply_review"@,
        "promote_profile_memory_to_person"@ != "apply_review"@,
        "demote_person_memory_to_profile"@ != "apply_review"@,
        "create_intent"@ != "apply_review"@,
        "update_intent"@ != "apply_review"@,
        "delete_intent"@ != "apply_review"@,
{
    reveal_strlit("send_message");
    reveal_strlit("update_profile");
    reveal_strlit("update_person");
    reveal_strlit("update_conversation_summary");
    reveal_strlit("upsert_social_relation");
    reveal_strlit("form_memory");
    reveal_strlit("recall_memories");
    reveal_strlit("read_messages");
    reveal_strlit("inspect_memory");
    reveal_strlit("delete_memory");
    reveal_strlit("forget_memory");
    reveal_strlit("promote_profile_memory_to_person");
    reveal_strlit("demote_person_memory_to_profile");
    reveal_strlit("create_intent");
    reveal_strlit("update_intent");
    reveal_strlit("delete_intent");
    reveal_strlit("apply_review");
    assert("send_message"@[0] != "inspect_memory"@[0]);
    assert("update_profile"@[0] != "inspect_memory"@[0]);
    assert("update_person"@[0] != "inspect_memory"@[0]);
    assert("update_conversation_summary"@[0] != "inspect_memory"@[0]);
    assert("upsert_social_relation"@[0] != "inspect_memory"@[0]);
    assert("form_memory"@[0] != "inspect_memory"@[0]);
    assert("recall_memories"@[0] != "inspect_memory"@[0]);
    assert("read_messages"@[0] != "inspect_memory"@[0]);
    assert("send_message"@[0] != "delete_memory"@[0]);
    assert("update_profile"@[0] != "delete_memory"@[0]);
    assert("update_person"@[0] != "delete_memory"@[0]);
    assert("update_conversation_summary"@[0] != "delete_memory"@[0]);
    assert("upsert_social_relation"@[0] != "delete_memory"@[0]);
    assert("form_memory"@[0] != "delete_memory"@[0]);
    assert("recall_memories"@[0] != "delete_memory"@[0]);
    assert("read_messages"@[0] != "delete_memory"@[0]);
    assert("inspect_memory"@[0] != "delete_memory"@[0]);
    assert("send_message"@[0] != "apply_review"@[0]);
    assert("update_profile"@[0] != "apply_review"@[0]);
    assert("update_person"@[0] != "apply_review"@[0]);
    assert("update_conversation_summary"@[0] != "apply_review"@[0]);
    assert("upsert_social_relation"@[0] != "apply_review"@[0]);
    assert("form_memory"@[0] != "apply_review"@[0]);
    assert("recall_memories"@[0] != "apply_review"@[0]);
    assert("read_messages"@[0] != "apply_review"@[0]);
    assert("inspect_memory"@[0] != "apply_review"@[0]);
    assert("delete_memory"@[0] != "apply_review"@[0]);
    assert("forget_memory"@[0] != "apply_review"@[0]);
    assert("promote_profile_memory_to_person"@[0] != "apply_review"@[0]);
    assert("demote_person_memory_to_profile"@[0] != "apply_review"@[0]);
    assert("create_intent"@[0] != "apply_review"@[0]);
    assert("update_intent"@[0] != "apply_review"@[0]);
    assert("delete_intent"@[0] != "apply_review"@[0]);
}

/// Chosen-person authority is refused only three things: a visible send from
/// a background action, an explicit send naming only one of gateway and
/// recipient, and structured review application outside a review action.
pub proof fn lemma_chosen_person_denials(name: Seq<char>, args: Json, ctx: PermissionContext, st: StoreSnapshot)
    requires
        ctx.authority == Authority::ChosenPerson,
    ensures
        check_denial(name, args, ctx, st) is None || check_denial(name, args, ctx, st) == Some(
            Denial::BackgroundSend,
        ) || check_denial(name, args, ctx, st) == Some(Denial::IncompleteOutboundTarget)
            || check_denial(name, args, ctx, st) == Some(Denial::ApplyReviewOnly),
{
    match args.array_at("relationship_changes"@) {
        Some(rels) => lemma_reflect_chosen(rels, ctx),
        None => {},
    }
}

/// Raising a session's authority to chosen person never turns an allowed
/// tool call into a refused one.
pub proof fn lemma_chosen_person_is_most_permissive(
    name: Seq<char>,
    args: Json,
    ctx: PermissionContext,
    st: StoreSnapshot,
)
    requires
        check_denial(name, args, ctx, st) is None,
    ensures
        check_denial(name, args, PermissionContext { authority: Authority::ChosenPerson, ..ctx }, st) is None,
{
    let c = PermissionContext { authority: Authority::ChosenPerson, ..ctx };
    assert(current_person(c) == current_person(ctx));
    assert(current_conversation(c) == current_conversation(ctx));
    assert(current_reply_target(c) == current_reply_target(ctx));
    match args.array_at("relationship_changes"@) {
        Some(rels) => lemma_reflect_chosen(rels, c),
        None => {},
    }
    if name == "send_message"@ {
        assert(send_denial(args, c, st) is None);
    }
}

/// Background actions (review, research, consolidation, rumination) never
/// send a visible message, whatever the arguments and authority.
pub proof fn lemma_background_actions_never_send(args: Json, ctx: PermissionContext, st: StoreSnapshot)
    requires
        ctx.kind == SessionKind::Action(ActionKind::Review) || ctx.kind == SessionKind::Action(ActionKind::Research)
            || ctx.kind == SessionKind::Action(ActionKind::Consolidate) || ctx.kind == SessionKind::Action(
            ActionKind::Ruminate,
        ),
    ensures
        check_denial("send_message"@, args, ctx, st) == Some(Denial::BackgroundSend),
{
}

/// Inspecting or deleting a memory by id is allowed exactly for chosen-person
/// authority.
pub proof fn lemma_inspect_and_delete_are_chosen_person_only(
    args: Json,
    ctx: PermissionContext,
    st: StoreSnapshot,
)
    ensures
        check_denial("inspect_memory"@, args, ctx, st) is None <==> ctx.authority == Authority::ChosenPerson,
        check_denial("delete_memory"@, args, ctx, st) is None <==> ctx.authority == Authority::ChosenPerson,
{
    lemma_tool_names_distinct();
}

/// Structured review application is allowed exactly in review actions.
pub proof fn lemma_apply_review_is_review_only(args: Json, ctx: PermissionContext, st: StoreSnapshot)
    ensures
        check_denial("apply_review"@, args, ctx, st) is None <==> ctx.kind == SessionKind::Action(ActionKind::Review),
{
    lemma_tool_names_distinct();
}

/// Updating another person is refused to anyone but the chosen person and
/// the review and consolidation actions: `update_person` names the person
/// it updates by its non-empty `ref`, and is refused exactly when that
/// differs from the current message's person (or there is none).
pub proof fn lemma_update_person_targets_ref(args: Json, ctx: PermissionContext, st: StoreSnapshot)
    ensures
        check_denial("update_person"@, args, ctx, st) == if ctx.authority != Authority::ChosenPerson
            && ctx.kind != SessionKind::Action(ActionKind::Review) && ctx.kind != SessionKind::Action(
            ActionKind::Consolidate,
        ) && (match args.str_at("ref"@) {
            Some(r) => r.len() > 0 && match ctx.current {
                Some(m) => match m.person {
                    Some(p) => p@ != r,
                    None => true,
                },
                None => true,
            },
            None => false,
        }) {
            Some(Denial::OtherPerson)
        } else {
            None
        },
{
    reveal_strlit("update_person");
    reveal_strlit("send_message");
    reveal_strlit("update_profile");
    assert("update_person"@[0] != "send_message"@[0]);
    assert("update_person"@[8] != "update_profile"@[8]);
}

/// Updating another profile is refused the same way, by the non-empty `ref`
/// against the current message's profile.
pub proof fn lemma_update_profile_targets_ref(args: Json, ctx: PermissionContext, st: StoreSnapshot)
    ensures
        check_denial("update_profile"@, args, ctx, st) == if ctx.authority != Authority::ChosenPerson
            && ctx.kind != SessionKind::Action(ActionKind::Review) && ctx.kind != SessionKind::Action(
            ActionKind::Consolidate,
        ) && (match args.str_at("ref"@) {
            Some(r) => r.len() > 0 && match ctx.current {
                Some(m) => match m.profile {
                    Some(p) => p@ != r,
                    None => true,
                },
                None => true,
            },
            None => false,
        }) {
            Some(Denial::OtherProfile)
        } else {
            None
        },
{
    reveal_strlit("send_message");
    reveal_strlit("update_profile");
    assert("update_profile"@[0] != "send_message"@[0]);
}

/// An intent needs the chosen person's approval when it says so, when it is
/// marked sensitive, or when its task or its condition contains, in any
/// letter case, one of the sensitive words.
pub proof fn lemma_sensitive_intent_needs_approval(args: Json)
    ensures
        args.flag_at("requires_chosen_person_approval"@) ==> intent_requires_approval(args),
        args.flag_at("sensitive"@) ==> intent_requires_approval(args),
        forall|t: Seq<char>, i: int|
            args.str_at("task"@) == Some(t) && 0 <= i < sensitive_needles().len() && #[trigger] contains_seq(
                ascii_lower_seq(t),
                sensitive_needles()[i],
            ) ==> intent_requires_approval(args),
        forall|c: Seq<char>, i: int|
            args.str_at("condition"@) == Some(c) && 0 <= i < sensitive_needles().len() && #[trigger] contains_seq(
                ascii_lower_seq(c),
                sensitive_needles()[i],
            ) ==> intent_requires_approval(args),
        !args.flag_at("requires_chosen_person_approval"@) && !args.flag_at("sensitive"@) && (forall|i: int|
            0 <= i < sensitive_needles().len() ==> !(match args.str_at("task"@) {
                Some(t) => contains_seq(ascii_lower_seq(t), #[trigger] sensitive_needles()[i]),
                None => false,
            }) && !(match args.str_at("condition"@) {
                Some(c) => contains_seq(ascii_lower_seq(c), sensitive_needles()[i]),
                None => false,
            })) ==> !intent_requires_approval(args),
{
    assert forall|t: Seq<char>, i: int|
        args.str_at("task"@) == Some(t) && 0 <= i < sensitive_needles().len() && #[trigger] contains_seq(
            ascii_lower_seq(t),
            sensitive_needles()[i],
        ) implies intent_requires_approval(args) by {
        assert(is_sensitive_text(t));
    }
    assert forall|c: Seq<char>, i: int|
        args.str_at("condition"@) == Some(c) && 0 <= i < sensitive_needles().len() && #[trigger] contains_seq(
            ascii_lower_seq(c),
            sensitive_needles()[i],
        ) implies intent_requires_approval(args) by {
        assert(is_sensitive_text(c));
    }
}

} // verus!
