//! Plain-value models of the session and store records that the decision
//! logic reads.
use vstd::prelude::*;

verus! {

/// The kind of action a session runs.
#[derive(PartialEq, Eq, Structural, Clone, Copy, Debug)]
pub enum ActionKind {
    Respond,
    Outreach,
    Review,
    Research,
    Consolidate,
    Ruminate,
}

impl ActionKind {
    pub open spec fn spec_expects_response(self) -> bool {
        self is Respond || self is Outreach
    }

    /// Whether the action is expected to end with a visible message.
    pub fn expects_response(&self) -> (r: bool)
        ensures
            r == self.spec_expects_response(),
    {
        matches!(self, ActionKind::Respond | ActionKind::Outreach)
    }
}

/// Whether a session is the "mind" deciding on an event, or an action.
#[derive(PartialEq, Eq, Structural, Clone, Copy, Debug)]
pub enum SessionKind {
    Mind,
    Action(ActionKind),
}

/// The authority of the person the session acts for.
#[derive(PartialEq, Eq, Structural, Clone, Copy, Debug)]
pub enum Authority {
    Default,
    Trusted,
    ChosenPerson,
}

/// Status of a link between a profile and a person.
#[derive(PartialEq, Eq, Structural, Clone, Copy, Debug)]
pub enum LinkStatus {
    Verified,
    Likely,
    Candidate,
    Rejected,
    Detached,
}

impl LinkStatus {
    /// Whether the link counts as an active person context.
    pub open spec fn is_active_person_context(self) -> bool {
        self is Verified || self is Likely
    }
}

/// A profile-to-person link, with its confidence in millionths.
#[derive(Clone, Debug)]
pub struct ProfileLink {
    pub profile: String,
    pub person: String,
    pub status: LinkStatus,
    pub confidence_micros: i64,
}

#[derive(PartialEq, Eq, Structural, Clone, Copy, Debug)]
pub enum MemorySubjectType {
    Identity,
    Profile,
    Person,
    Actor,
}

#[derive(Clone, Debug)]
pub struct MemorySubject {
    pub subject_type: MemorySubjectType,
    pub subject_id: String,
    /// How the memory relates to the subject ("about", "self").
    pub role: Option<String>,
}

#[derive(PartialEq, Eq, Structural, Clone, Copy, Debug)]
pub enum PrivacyCategory {
    Public,
    Personal,
    Sensitive,
    Secret,
}

#[derive(PartialEq, Eq, Structural, Clone, Copy, Debug)]
pub enum VisibilityScope {
    Profile,
    Person,
    ChosenPersonOnly,
    Global,
}

/// Where a memory came from; a conversation source keeps the profile it was
/// formed about.
#[derive(Clone, Debug)]
pub enum MemorySource {
    Conversation { profile_id: Option<String> },
    Consolidation,
    Reflection,
    External,
}

/// The parts of a stored memory that permission decisions read.
#[derive(Clone, Debug)]
pub struct MemoryFacts {
    pub id: String,
    pub source: MemorySource,
    pub privacy_category: PrivacyCategory,
    pub visibility_scope: VisibilityScope,
    pub subjects: Vec<MemorySubject>,
}

/// The targeting fields of a stored intent.
#[derive(Clone, Debug)]
pub struct IntentFacts {
    pub id: String,
    pub status: String,
    pub person: Option<String>,
    pub profile: Option<String>,
    pub conversation: Option<String>,
}

/// A conversation summary row.
#[derive(Clone, Debug)]
pub struct ConversationFacts {
    pub id: String,
    pub person: Option<String>,
    pub profile: Option<String>,
    pub gateway_id: Option<String>,
}

/// Reply routing of a stored message.
#[derive(Clone, Debug)]
pub struct StoredReplyFacts {
    pub reply_external_id: Option<String>,
    pub source_gateway_id: Option<String>,
}

/// What the logic reads of the first inbound message of a session.
#[derive(Clone, Debug)]
pub struct InboundFacts {
    pub identity: Option<String>,
    pub profile: Option<String>,
    pub person: Option<String>,
    pub conversation: String,
    /// `(gateway_id, external_id)` that a reply goes to, when there is one.
    pub reply_target: Option<(String, String)>,
}

/// What permission decisions read of a session.
#[derive(Clone, Debug)]
pub struct PermissionContext {
    pub kind: SessionKind,
    pub authority: Authority,
    pub conversation: Option<String>,
    pub current: Option<InboundFacts>,
    /// People whose relationship carries chosen-person authority.
    pub chosen_people: Vec<String>,
}

/// The store rows a permission decision may consult.
#[derive(Clone, Debug)]
pub struct StoreSnapshot {
    pub memories: Vec<MemoryFacts>,
    pub intents: Vec<IntentFacts>,
    pub profile_links: Vec<ProfileLink>,
    pub conversations: Vec<ConversationFacts>,
    /// Recent messages of the current conversation.
    pub conversation_messages: Vec<StoredReplyFacts>,
}


/// A thought the session noted; importance and confidence in millionths.
#[derive(Clone, Debug)]
pub struct Thought {
    pub timestamp: i64,
    pub kind: String,
    pub content: String,
    pub importance_micros: i64,
    pub confidence_micros: i64,
    pub action_id: Option<String>,
    pub memories_accessed: Vec<String>,
}

/// Kind of a media attachment.
#[derive(PartialEq, Eq, Structural, Clone, Copy, Debug)]
pub enum MediaKind {
    Image,
    Video,
    Audio,
    Sticker,
    File,
}

/// A media attachment of a message.
#[derive(Clone, Debug)]
pub struct MediaAttachment {
    pub kind: MediaKind,
    pub asset_id: Option<String>,
    pub url: Option<String>,
    pub mime: Option<String>,
    pub filename: Option<String>,
    pub size: Option<u64>,
}

/// An inbound message as the session sees it.
#[derive(Clone, Debug)]
pub struct InboundMessage {
    pub message_id: String,
    pub gateway_id: String,
    pub sender_external_id: String,
    pub sender_display_name: Option<String>,
    pub reply_external_id: String,
    pub conversation: String,
    pub group: Option<String>,
    pub identity: Option<String>,
    pub profile: Option<String>,
    pub person: Option<String>,
    pub content: String,
    pub attachments: Vec<MediaAttachment>,
    pub timestamp: i64,
}


pub fn copy_opt(o: &Option<String>) -> (r: Option<String>)
    ensures
        r == *o,
{
    match o {
        Some(s) => Some(s.clone()),
        None => None,
    }
}

impl MediaAttachment {
    /// A field-for-field copy.
    pub fn duplicate(&self) -> (r: MediaAttachment)
        ensures
            r == *self,
    {
        MediaAttachment {
            kind: self.kind,
            asset_id: copy_opt(&self.asset_id),
            url: copy_opt(&self.url),
            mime: copy_opt(&self.mime),
            filename: copy_opt(&self.filename),
            size: self.size,
        }
    }
}

pub fn copy_attachments(v: &Vec<MediaAttachment>) -> (r: Vec<MediaAttachment>)
    ensures
        r@ == v@,
{
    let mut out: Vec<MediaAttachment> = Vec::new();
    let mut i: usize = 0;
    while i < v.len()
        invariant
            0 <= i <= v.len(),
            out@ == v@.take(i as int),
        decreases v.len() - i,
    {
        out.push(v[i].duplicate());
        assert(v@.take(i + 1) =~= v@.take(i as int).push(v@[i as int]));
        i = i + 1;
    }
    assert(v@.take(v.len() as int) =~= v@);
    out
}

/// Two messages agree on every field.
pub open spec fn same_message(a: InboundMessage, b: InboundMessage) -> bool {
    &&& a.message_id == b.message_id
    &&& a.gateway_id == b.gateway_id
    &&& a.sender_external_id == b.sender_external_id
    &&& a.sender_display_name == b.sender_display_name
    &&& a.reply_external_id == b.reply_external_id
    &&& a.conversation == b.conversation
    &&& a.group == b.group
    &&& a.identity == b.identity
    &&& a.profile == b.profile
    &&& a.person == b.person
    &&& a.content == b.content
    &&& a.attachments@ == b.attachments@
    &&& a.timestamp == b.timestamp
}

impl InboundMessage {
    /// A field-for-field copy.
    pub fn duplicate(&self) -> (r: InboundMessage)
        ensures
            same_message(r, *self),
    {
        InboundMessage {
            message_id: self.message_id.clone(),
            gateway_id: self.gateway_id.clone(),
            sender_external_id: self.sender_external_id.clone(),
            sender_display_name: copy_opt(&self.sender_display_name),
            reply_external_id: self.reply_external_id.clone(),
            conversation: self.conversation.clone(),
            group: copy_opt(&self.group),
            identity: copy_opt(&self.identity),
            profile: copy_opt(&self.profile),
            person: copy_opt(&self.person),
            content: self.content.clone(),
            attachments: copy_attachments(&self.attachments),
            timestamp: self.timestamp,
        }
    }
}

} // verus!
