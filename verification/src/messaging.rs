//! Messaging: what a read shows and records as evidence, how conversation
//! summaries name their coverage, and the decisions around a send.
use vstd::prelude::*;
use crate::json::Json;
use crate::memory::{current_conversation, gather, message_ids_of, opt_view, MessageField};
use crate::model::{ActionKind, Authority, InboundMessage, MediaAttachment, MediaKind, SessionKind};
use crate::session::{keys_view, SessionState};
use crate::text::{append_str, is_blank, owned, str_eq};

verus! {

// ---------------------------------------------------------------------------
// Reading
// ---------------------------------------------------------------------------

/// Who may read recent conversations when there is no current one: the
/// chosen person and the background review, consolidation and rumination.
pub open spec fn may_read_recent(kind: SessionKind, authority: Authority) -> bool {
    authority == Authority::ChosenPerson || kind == SessionKind::Action(ActionKind::Review) || kind
        == SessionKind::Action(ActionKind::Consolidate) || kind == SessionKind::Action(ActionKind::Ruminate)
}

pub fn can_read_recent_without_current_conversation(kind: SessionKind, authority: Authority) -> (r: bool)
    ensures
        r == may_read_recent(kind, authority),
{
    authority == Authority::ChosenPerson || match kind {
        SessionKind::Action(ActionKind::Review) => true,
        SessionKind::Action(ActionKind::Consolidate) => true,
        SessionKind::Action(ActionKind::Ruminate) => true,
        _ => false,
    }
}

/// What a read covers.
pub enum ReadScope {
    /// One conversation's messages.
    Conversation(String),
    /// The most recent conversations.
    Recent,
    /// Nothing to read.
    Refused,
}

/// The message a read without a conversation answers when it may not read
/// recent ones.
pub open spec fn no_conversation_message() -> Seq<char> {
    "No conversation specified and no current conversation."@
}

/// The conversation a tool works on: the named one, else the current one.
pub open spec fn target_conversation(args: Json, conversation: Option<String>, own: Seq<InboundMessage>) -> Option<
    Seq<char>,
> {
    match args.str_at("conversation"@) {
        Some(c) => Some(c),
        None => match conversation {
            Some(c) => Some(c@),
            None => if own.len() > 0 {
                Some(own[0].conversation@)
            } else {
                None
            },
        },
    }
}

pub fn conversation_arg(args: &Json, conversation: &Option<String>, own: &Vec<InboundMessage>) -> (r: Option<
    String,
>)
    ensures
        opt_view(r) == target_conversation(*args, *conversation, own@),
{
    match args.str_field("conversation") {
        Some(c) => Some(c),
        None => current_conversation(conversation, own),
    }
}

/// A read or a summary works on the conversation the arguments name, when
/// they name one; otherwise on the session's conversation, else that of its
/// first message, else on none.
pub proof fn lemma_named_conversation_wins(args: Json, conversation: Option<String>, own: Seq<InboundMessage>)
    ensures
        forall|c: Seq<char>| args.str_at("conversation"@) == Some(c) ==> target_conversation(args, conversation, own)
            == Some(c),
        args.str_at("conversation"@) is None ==> target_conversation(args, conversation, own) == match conversation {
            Some(c) => Some(c@),
            None => if own.len() > 0 {
                Some(own[0].conversation@)
            } else {
                None
            },
        },
{
}

/// The scope and page of a `read_messages` call: the named or current
/// conversation; else recent conversations for those who may read them.
pub fn read_scope(
    args: &Json,
    conversation: &Option<String>,
    own: &Vec<InboundMessage>,
    kind: SessionKind,
    authority: Authority,
) -> (r: (ReadScope, u64, Option<i64>))
    ensures
        r.1 == match args.u64_at("limit"@) {
            Some(n) => n,
            None => 10,
        },
        r.2 == args.i64_at("before"@),
        match r.0 {
            ReadScope::Conversation(c) => target_conversation(*args, *conversation, own@) == Some(c@),
            ReadScope::Recent => target_conversation(*args, *conversation, own@) is None && may_read_recent(
                kind,
                authority,
            ),
            ReadScope::Refused => target_conversation(*args, *conversation, own@) is None && !may_read_recent(
                kind,
                authority,
            ),
        },
{
    let limit = match args.u64_field("limit") {
        Some(n) => n,
        None => 10,
    };
    let before = args.i64_field("before");
    let scope = match conversation_arg(args, conversation, own) {
        Some(c) => ReadScope::Conversation(c),
        None => if can_read_recent_without_current_conversation(kind, authority) {
            ReadScope::Recent
        } else {
            ReadScope::Refused
        },
    };
    (scope, limit, before)
}

/// How many conversations a recent read visits.
pub const RECENT_CONVERSATIONS: usize = 8;

/// How many messages a recent read shows in all: `limit` within `1..=20`.
pub fn recent_read_budget(limit: u64) -> (r: u64)
    ensures
        r == if limit < 1 {
            1
        } else if limit > 20 {
            20
        } else {
            limit
        },
        1 <= r <= 20,
{
    if limit < 1 {
        1
    } else if limit > 20 {
        20
    } else {
        limit
    }
}

/// How many messages a recent read takes from one conversation.
pub fn per_conversation_limit(remaining: u64) -> (r: u64)
    ensures
        r == if remaining < 5 {
            remaining
        } else {
            5
        },
{
    if remaining < 5 {
        remaining
    } else {
        5
    }
}

/// A stored message as a read sees it; `readable_id` is the id the store
/// shows for it.
pub struct StoredMessageFacts {
    pub readable_id: String,
    /// "user" or "assistant".
    pub role: String,
    pub source_message_id: Option<String>,
    pub source_gateway_id: Option<String>,
    pub sender_external_id: Option<String>,
    pub reply_external_id: Option<String>,
    pub identity: Option<String>,
    pub profile: Option<String>,
    pub person: Option<String>,
    pub content: String,
    pub timestamp: i64,
}

pub open spec fn or_empty(o: Option<String>) -> Seq<char> {
    match o {
        Some(s) => s@,
        None => Seq::empty(),
    }
}

/// The evidence message a read stored message becomes.
pub open spec fn evidence_of(
    conversation: Seq<char>,
    gateway_hint: Option<Seq<char>>,
    group: Option<Seq<char>>,
    m: StoredMessageFacts,
) -> (Seq<char>, Seq<char>, Seq<char>, Seq<char>, Seq<char>, Option<Seq<char>>, Option<Seq<char>>, Option<
    Seq<char>,
>, Option<Seq<char>>, Seq<char>, i64) {
    (
        m.readable_id@,
        match m.source_gateway_id {
            Some(g) => g@,
            None => match gateway_hint {
                Some(h) => h,
                None => Seq::empty(),
            },
        },
        or_empty(m.sender_external_id),
        or_empty(m.reply_external_id),
        conversation,
        group,
        opt_view(m.identity),
        opt_view(m.profile),
        opt_view(m.person),
        m.content@,
        m.timestamp,
    )
}

/// An evidence message as plain values, in the order of `evidence_of`.
pub open spec fn evidence_view(m: InboundMessage) -> (Seq<char>, Seq<char>, Seq<char>, Seq<char>, Seq<char>, Option<
    Seq<char>,
>, Option<Seq<char>>, Option<Seq<char>>, Option<Seq<char>>, Seq<char>, i64) {
    (
        m.message_id@,
        m.gateway_id@,
        m.sender_external_id@,
        m.reply_external_id@,
        m.conversation@,
        opt_view(m.group),
        opt_view(m.identity),
        opt_view(m.profile),
        opt_view(m.person),
        m.content@,
        m.timestamp,
    )
}

fn or_empty_string(o: &Option<String>) -> (r: String)
    ensures
        r@ == or_empty(*o),
{
    match o {
        Some(s) => s.clone(),
        None => String::new(),
    }
}

/// A string as JSON, or null.
pub open spec fn opt_json(o: Option<String>) -> Json {
    match o {
        Some(s) => Json::Str(s),
        None => Json::Null,
    }
}

fn opt_json_exec(o: &Option<String>) -> (r: Json)
    ensures
        r == opt_json(*o),
{
    match o {
        Some(s) => Json::Str(s.clone()),
        None => Json::Null,
    }
}

/// The time a read shows for a message: RFC 3339, else the plain number.
pub open spec fn message_time(ts: i64) -> Seq<char> {
    match crate::formats::rfc3339_text(ts) {
        Some(t) => t,
        None => crate::formats::signed_decimal(ts as int),
    }
}

/// The keys of a message as a read shows it.
pub open spec fn message_json_key(k: Seq<char>) -> bool {
    k == "message_id"@ || k == "time"@ || k == "from"@ || k == "content"@ || k == "source"@ || k == "attachments"@
}

/// Who wrote a message, as a read shows it: the assistant itself, or a user
/// with the person's reference and name where they are known.
pub open spec fn from_json_ok(f: Json, m: StoredMessageFacts, person_name: Option<String>) -> bool {
    let own = m.role@ == "assistant"@;
    &&& f is Object
    &&& f.str_at("role"@) == Some(if own { "self"@ } else { "user"@ })
    &&& f.field("ref"@) == if own { None } else {
        match m.person {
            Some(p) => Some(Json::Str(p)),
            None => None,
        }
    }
    &&& f.field("name"@) == if own || m.person is None { None } else {
        match person_name {
            Some(n) => Some(Json::Str(n)),
            None => None,
        }
    }
    &&& forall|k: Seq<char>| k != "role"@ && k != "ref"@ && k != "name"@ ==> #[trigger] f.field(k) is None
}

proof fn lemma_message_keys_distinct()
    ensures
        "message_id"@ != "time"@,
        "message_id"@ != "from"@,
        "message_id"@ != "content"@,
        "message_id"@ != "source"@,
        "message_id"@ != "attachments"@,
        "time"@ != "from"@,
        "time"@ != "content"@,
        "time"@ != "source"@,
        "time"@ != "attachments"@,
        "from"@ != "content"@,
        "from"@ != "source"@,
        "from"@ != "attachments"@,
        "content"@ != "source"@,
        "content"@ != "attachments"@,
        "source"@ != "attachments"@,
        "role"@ != "ref"@,
        "role"@ != "name"@,
        "ref"@ != "name"@,
        "gateway_id"@ != "message_id"@,
{
    reveal_strlit("message_id");
    reveal_strlit("time");
    reveal_strlit("from");
    reveal_strlit("content");
    reveal_strlit("source");
    reveal_strlit("attachments");
    reveal_strlit("role");
    reveal_strlit("ref");
    reveal_strlit("name");
    reveal_strlit("gateway_id");
    assert("message_id"@[0] != "time"@[0]);
    assert("message_id"@[0] != "from"@[0]);
    assert("message_id"@[0] != "content"@[0]);
    assert("message_id"@[0] != "source"@[0]);
    assert("message_id"@[0] != "attachments"@[0]);
    assert("time"@[0] != "from"@[0]);
    assert("time"@[0] != "content"@[0]);
    assert("time"@[0] != "source"@[0]);
    assert("time"@[0] != "attachments"@[0]);
    assert("from"@[0] != "content"@[0]);
    assert("from"@[0] != "source"@[0]);
    assert("from"@[0] != "attachments"@[0]);
    assert("content"@[0] != "source"@[0]);
    assert("content"@[0] != "attachments"@[0]);
    assert("source"@[0] != "attachments"@[0]);
    assert("role"@[1] != "ref"@[1]);
    assert("role"@[0] != "name"@[0]);
    assert("ref"@[0] != "name"@[0]);
    assert("gateway_id"@[0] != "message_id"@[0]);
}

/// What `message_json` shows of a stored message (see there).
pub open spec fn message_json_ok(r: Json, m: StoredMessageFacts, person_name: Option<String>, attachments: Option<Json>) -> bool {
    &&& r is Object
    &&& r.str_at("message_id"@) == Some(m.readable_id@)
    &&& r.str_at("time"@) == Some(message_time(m.timestamp))
    &&& r.str_at("content"@) == Some(m.content@)
    &&& match r.field("from"@) {
        Some(f) => from_json_ok(f, m, person_name),
        None => false,
    }
    &&& match r.field("source"@) {
        Some(src) => {
            &&& (m.source_gateway_id is Some || m.source_message_id is Some)
            &&& src is Object
            &&& src.field("gateway_id"@) == Some(opt_json(m.source_gateway_id))
            &&& src.field("message_id"@) == Some(opt_json(m.source_message_id))
            &&& forall|k: Seq<char>| k != "gateway_id"@ && k != "message_id"@ ==> #[trigger] src.field(k) is None
        },
        None => m.source_gateway_id is None && m.source_message_id is None,
    }
    &&& r.field("attachments"@) == attachments
    &&& forall|k: Seq<char>| !message_json_key(k) ==> #[trigger] r.field(k) is None
}

/// `message_json`: a stored message as a read shows it. `person_name` is the
/// name the store holds for the message's person; `attachments` is what the
/// message's metadata holds under "attachments".
pub fn message_json(m: &StoredMessageFacts, person_name: &Option<String>, attachments: Option<Json>) -> (r: Json)
    ensures
        message_json_ok(r, *m, *person_name, attachments),
{
    proof {
        lemma_message_keys_distinct();
    }
    let own = str_eq(m.role.as_str(), "assistant");
    let mut from: Vec<(String, Json)> = Vec::new();
    if own {
        crate::json::object_insert(&mut from, "role", Json::Str(owned("self")));
    } else {
        crate::json::object_insert(&mut from, "role", Json::Str(owned("user")));
        match &m.person {
            Some(p) => {
                crate::json::object_insert(&mut from, "ref", Json::Str(p.clone()));
                match person_name {
                    Some(n) => crate::json::object_insert(&mut from, "name", Json::Str(n.clone())),
                    None => {},
                }
            },
            None => {},
        }
    }
    let mut item: Vec<(String, Json)> = Vec::new();
    crate::json::object_insert(&mut item, "message_id", Json::Str(m.readable_id.clone()));
    crate::json::object_insert(&mut item, "time", Json::Str(crate::formats::format_timestamp(m.timestamp)));
    crate::json::object_insert(&mut item, "from", Json::Object(from));
    crate::json::object_insert(&mut item, "content", Json::Str(m.content.clone()));
    if m.source_gateway_id.is_some() || m.source_message_id.is_some() {
        let mut source: Vec<(String, Json)> = Vec::new();
        crate::json::object_insert(&mut source, "gateway_id", opt_json_exec(&m.source_gateway_id));
        crate::json::object_insert(&mut source, "message_id", opt_json_exec(&m.source_message_id));
        crate::json::object_insert(&mut item, "source", Json::Object(source));
    }
    match attachments {
        Some(a) => crate::json::object_insert(&mut item, "attachments", a),
        None => {},
    }
    Json::Object(item)
}

/// Read evidence carries no sender display name and no attachments.
pub open spec fn bare_evidence(m: InboundMessage) -> bool {
    m.sender_display_name is None && m.attachments@.len() == 0
}

/// `read_evidence_message`: a read message as evidence a memory may cite.
pub fn read_evidence_message(
    conversation: &String,
    gateway_hint: &Option<String>,
    group: &Option<String>,
    m: &StoredMessageFacts,
) -> (r: InboundMessage)
    ensures
        evidence_view(r) == evidence_of(conversation@, opt_view(*gateway_hint), opt_view(*group), *m),
        r.sender_display_name is None,
        r.attachments@.len() == 0,
{
    let gateway_id = match &m.source_gateway_id {
        Some(g) => g.clone(),
        None => or_empty_string(gateway_hint),
    };
    InboundMessage {
        message_id: m.readable_id.clone(),
        gateway_id,
        sender_external_id: or_empty_string(&m.sender_external_id),
        sender_display_name: None,
        reply_external_id: or_empty_string(&m.reply_external_id),
        conversation: conversation.clone(),
        group: crate::model::copy_opt(group),
        identity: crate::model::copy_opt(&m.identity),
        profile: crate::model::copy_opt(&m.profile),
        person: crate::model::copy_opt(&m.person),
        content: m.content.clone(),
        attachments: Vec::new(),
        timestamp: m.timestamp,
    }
}

/// Ids of messages, as sequences.
pub open spec fn ids_of(ms: Seq<InboundMessage>) -> Seq<Seq<char>> {
    ms.map_values(|m: InboundMessage| m.message_id@)
}

/// The ids already shown: read, injected and the session's own messages.
pub open spec fn shown_ids(read: Seq<InboundMessage>, injected: Seq<InboundMessage>, own: Seq<InboundMessage>) -> Seq<
    Seq<char>,
> {
    ids_of(read) + ids_of(injected) + ids_of(own)
}

/// The ids that reading the messages adds, in order: those not shown before
/// and not added earlier in the same read.
pub open spec fn newly_read(shown: Seq<Seq<char>>, ids: Seq<Seq<char>>) -> Seq<Seq<char>>
    decreases ids.len(),
{
    if ids.len() == 0 {
        Seq::empty()
    } else {
        let before = newly_read(shown, ids.drop_last());
        if shown.contains(ids.last()) || before.contains(ids.last()) {
            before
        } else {
            before.push(ids.last())
        }
    }
}

fn contains_id(ms: &Vec<InboundMessage>, id: &String) -> (r: bool)
    ensures
        r == ids_of(ms@).contains(id@),
{
    let mut i: usize = 0;
    while i < ms.len()
        invariant
            0 <= i <= ms.len(),
            forall|k: int| 0 <= k < i ==> (#[trigger] ms@[k]).message_id@ != id@,
        decreases ms.len() - i,
    {
        if ms[i].message_id == *id {
            assert(ids_of(ms@)[i as int] == id@);
            return true;
        }
        i = i + 1;
    }
    assert(!ids_of(ms@).contains(id@)) by {
        if ids_of(ms@).contains(id@) {
            let t = choose|t: int| 0 <= t < ids_of(ms@).len() && ids_of(ms@)[t] == id@;
            assert(ids_of(ms@)[t] == ms@[t].message_id@);
        }
    }
    false
}

/// Membership in a concatenation is membership in either part.
pub proof fn lemma_concat_contains_pub(a: Seq<Seq<char>>, b: Seq<Seq<char>>, x: Seq<char>)
    ensures
        (a + b).contains(x) <==> (a.contains(x) || b.contains(x)),
{
    lemma_concat_contains(a, b, x);
}

proof fn lemma_concat_contains(a: Seq<Seq<char>>, b: Seq<Seq<char>>, x: Seq<char>)
    ensures
        (a + b).contains(x) <==> (a.contains(x) || b.contains(x)),
{
    if (a + b).contains(x) {
        let t = choose|t: int| 0 <= t < (a + b).len() && (a + b)[t] == x;
        if t < a.len() {
            assert(a[t] == x);
        } else {
            assert(b[t - a.len()] == x);
        }
    }
    if a.contains(x) {
        let t = choose|t: int| 0 <= t < a.len() && a[t] == x;
        assert((a + b)[t] == x);
    }
    if b.contains(x) {
        let t = choose|t: int| 0 <= t < b.len() && b[t] == x;
        assert((a + b)[a.len() + t] == x);
    }
}

fn shown_already(state: &SessionState, own: &Vec<InboundMessage>, id: &String) -> (r: bool)
    ensures
        r == shown_ids(state.presented_read_messages@, state.presented_injected_messages@, own@).contains(id@),
{
    let a = contains_id(&state.presented_read_messages, id);
    let b = contains_id(&state.presented_injected_messages, id);
    let c = contains_id(own, id);
    proof {
        lemma_concat_contains(ids_of(state.presented_read_messages@), ids_of(state.presented_injected_messages@), id@);
        lemma_concat_contains(
            ids_of(state.presented_read_messages@) + ids_of(state.presented_injected_messages@),
            ids_of(own@),
            id@,
        );
    }
    a || b || c
}

/// The ids the store shows for messages.
pub open spec fn readable_ids(ms: Seq<StoredMessageFacts>) -> Seq<Seq<char>> {
    ms.map_values(|m: StoredMessageFacts| m.readable_id@)
}

/// The read messages that become evidence, in order: the first with each id
/// that was not shown before.
pub open spec fn kept_reads(shown: Seq<Seq<char>>, ms: Seq<StoredMessageFacts>) -> Seq<StoredMessageFacts>
    decreases ms.len(),
{
    if ms.len() == 0 {
        Seq::empty()
    } else {
        let before = kept_reads(shown, ms.drop_last());
        let id = ms.last().readable_id@;
        if shown.contains(id) || readable_ids(before).contains(id) {
            before
        } else {
            before.push(ms.last())
        }
    }
}

/// What recording a read does to the session: the messages not shown
/// before join the read evidence in order, as `evidence_of` builds them,
/// bare of display names and attachments, and nothing else changes.
pub open spec fn read_recorded(
    before: SessionState,
    after: SessionState,
    own: Seq<InboundMessage>,
    conversation: Seq<char>,
    gateway_hint: Option<Seq<char>>,
    group: Option<Seq<char>>,
    messages: Seq<StoredMessageFacts>,
) -> bool {
    let kept = kept_reads(shown_ids(before.presented_read_messages@, before.presented_injected_messages@, own), messages);
    &&& after.presented_read_messages@.len() == before.presented_read_messages@.len() + kept.len()
    &&& forall|k: int|
        0 <= k < before.presented_read_messages@.len() ==> #[trigger] after.presented_read_messages@[k]
            == before.presented_read_messages@[k]
    &&& forall|k: int|
        0 <= k < kept.len() ==> evidence_view(#[trigger] after.presented_read_messages@[before.presented_read_messages@.len() + k])
            == evidence_of(conversation, gateway_hint, group, kept[k]) && bare_evidence(
            after.presented_read_messages@[before.presented_read_messages@.len() + k],
        )
    &&& ids_of(after.presented_read_messages@) == ids_of(before.presented_read_messages@) + newly_read(
        shown_ids(before.presented_read_messages@, before.presented_injected_messages@, own),
        readable_ids(messages),
    )
    &&& after == (SessionState { presented_read_messages: after.presented_read_messages, ..before })
}

/// `record_read_evidence`: read messages become citable evidence, each id at
/// most once across what was read, injected and the session's own messages.
pub fn record_read_evidence(
    state: &mut SessionState,
    own: &Vec<InboundMessage>,
    conversation: &String,
    gateway_hint: &Option<String>,
    group: &Option<String>,
    messages: &Vec<StoredMessageFacts>,
)
    ensures
        read_recorded(*old(state), *final(state), own@, conversation@, opt_view(*gateway_hint), opt_view(*group), messages@),
{
    let ghost shown0 = shown_ids(old(state).presented_read_messages@, old(state).presented_injected_messages@, own@);
    let ghost read0 = old(state).presented_read_messages@;
    let ghost injected0 = old(state).presented_injected_messages@;
    let ghost ids = readable_ids(messages@);
    let mut i: usize = 0;
    while i < messages.len()
        invariant
            0 <= i <= messages.len(),
            ids == readable_ids(messages@),
            shown0 == shown_ids(read0, injected0, own@),
            state.presented_injected_messages@ == injected0,
            *state == (SessionState { presented_read_messages: state.presented_read_messages, ..*old(state) }),
            ids_of(state.presented_read_messages@) == ids_of(read0) + newly_read(shown0, ids.take(i as int)),
            readable_ids(kept_reads(shown0, messages@.take(i as int))) == newly_read(shown0, ids.take(i as int)),
            state.presented_read_messages@.len() == read0.len() + kept_reads(shown0, messages@.take(i as int)).len(),
            forall|k: int| 0 <= k < read0.len() ==> #[trigger] state.presented_read_messages@[k] == read0[k],
            forall|k: int|
                0 <= k < kept_reads(shown0, messages@.take(i as int)).len() ==> evidence_view(
                    #[trigger] state.presented_read_messages@[read0.len() + k],
                ) == evidence_of(
                    conversation@,
                    opt_view(*gateway_hint),
                    opt_view(*group),
                    kept_reads(shown0, messages@.take(i as int))[k],
                ) && bare_evidence(state.presented_read_messages@[read0.len() + k]),
        decreases messages.len() - i,
    {
        assert(ids.take(i + 1).drop_last() =~= ids.take(i as int));
        assert(ids.take(i + 1).last() == messages@[i as int].readable_id@);
        assert(messages@.take(i + 1).drop_last() =~= messages@.take(i as int));
        assert(messages@.take(i + 1).last() == messages@[i as int]);
        let ghost kept_before = kept_reads(shown0, messages@.take(i as int));
        let evidence = read_evidence_message(conversation, gateway_hint, group, &messages[i]);
        let ghost cur = shown_ids(state.presented_read_messages@, injected0, own@);
        let seen = shown_already(state, own, &evidence.message_id);
        proof {
            assert(cur =~= ids_of(read0) + newly_read(shown0, ids.take(i as int)) + ids_of(injected0) + ids_of(own@));
            let a = ids_of(read0);
            let b = newly_read(shown0, ids.take(i as int));
            let c = ids_of(injected0) + ids_of(own@);
            let x = evidence.message_id@;
            assert(shown0 =~= a + c);
            assert(cur =~= a + b + c);
            lemma_concat_contains(a + b, c, x);
            lemma_concat_contains(a, b, x);
            lemma_concat_contains(a, c, x);
        }
        if !seen {
            let ghost before = state.presented_read_messages@;
            let ghost eid = evidence.message_id@;
            state.presented_read_messages.push(evidence);
            proof {
                assert(ids_of(state.presented_read_messages@) =~= ids_of(before).push(eid));
                assert(readable_ids(kept_before.push(messages@[i as int])) =~= readable_ids(kept_before).push(eid));
                let kept_now = kept_reads(shown0, messages@.take(i + 1));
                assert(kept_now == kept_before.push(messages@[i as int]));
                assert forall|k: int| 0 <= k < kept_now.len() implies evidence_view(
                    #[trigger] state.presented_read_messages@[read0.len() + k],
                ) == evidence_of(conversation@, opt_view(*gateway_hint), opt_view(*group), kept_now[k]) by {
                    if k < kept_before.len() {
                        assert(state.presented_read_messages@[read0.len() + k] == before[read0.len() + k]);
                    }
                }
                assert forall|k: int| 0 <= k < read0.len() implies #[trigger] state.presented_read_messages@[k]
                    == read0[k] by {
                    assert(state.presented_read_messages@[k] == before[k]);
                }
            }
        }
        i = i + 1;
    }
    assert(ids.take(messages.len() as int) =~= ids);
    assert(messages@.take(messages.len() as int) =~= messages@);
}

// ---------------------------------------------------------------------------
// Conversation summaries
// ---------------------------------------------------------------------------

/// Why a summary update is refused.
#[derive(PartialEq, Eq, Structural, Clone, Copy, Debug)]
pub enum SummaryError {
    NoConversation,
    EmptySummary,
}

impl SummaryError {
    pub open spec fn spec_message(self) -> Seq<char> {
        match self {
            SummaryError::NoConversation => no_conversation_message(),
            SummaryError::EmptySummary => "Provide a non-empty summary."@,
        }
    }

    pub fn message(&self) -> (r: &'static str)
        ensures
            r@ == self.spec_message(),
    {
        match self {
            SummaryError::NoConversation => "No conversation specified and no current conversation.",
            SummaryError::EmptySummary => "Provide a non-empty summary.",
        }
    }
}

/// The string items of a JSON array, as they are.
pub open spec fn raw_strings(items: Seq<Json>) -> Seq<Seq<char>>
    decreases items.len(),
{
    if items.len() == 0 {
        Seq::empty()
    } else {
        match items.last() {
            Json::Str(s) => raw_strings(items.drop_last()).push(s@),
            _ => raw_strings(items.drop_last()),
        }
    }
}

fn raw_string_items(items: &Vec<Json>) -> (r: Vec<String>)
    ensures
        keys_view(r@) == raw_strings(items@),
{
    let mut out: Vec<String> = Vec::new();
    let mut i: usize = 0;
    while i < items.len()
        invariant
            0 <= i <= items.len(),
            keys_view(out@) == raw_strings(items@.take(i as int)),
        decreases items.len() - i,
    {
        assert(items@.take(i + 1).drop_last() =~= items@.take(i as int));
        assert(items@.take(i + 1).last() == items@[i as int]);
        match &items[i] {
            Json::Str(s) => {
                out.push(s.clone());
                assert(keys_view(out@) =~= raw_strings(items@.take(i as int)).push(s@));
            },
            _ => {},
        }
        i = i + 1;
    }
    assert(items@.take(items.len() as int) =~= items@);
    out
}

/// The messages a summary covers: the listed ids, else the session's own
/// messages that have an id.
pub open spec fn covered_ids(args: Json, own: Seq<InboundMessage>) -> Seq<Seq<char>> {
    match args.array_at("covered_message_ids"@) {
        Some(items) => raw_strings(items),
        None => message_ids_of(own),
    }
}

/// Plans `update_conversation_summary`: the conversation, the summary and the
/// messages it covers.
pub fn plan_summary_update(args: &Json, conversation: &Option<String>, own: &Vec<InboundMessage>) -> (r: Result<
    (String, String, Vec<String>),
    SummaryError,
>)
    ensures
        match r {
            Err(SummaryError::NoConversation) => target_conversation(*args, *conversation, own@) is None,
            Err(SummaryError::EmptySummary) => target_conversation(*args, *conversation, own@) is Some && !(
            args.str_at("summary"@) is Some && crate::text::trim_seq(args.str_at("summary"@)->0).len() > 0),
            Ok((c, s, ids)) => target_conversation(*args, *conversation, own@) == Some(c@) && args.str_at(
                "summary"@,
            ) == Some(s@) && crate::text::trim_seq(s@).len() > 0 && keys_view(ids@) == covered_ids(
                *args,
                own@,
            ),
        },
{
    let conv = match conversation_arg(args, conversation, own) {
        Some(c) => c,
        None => {
            return Err(SummaryError::NoConversation);
        },
    };
    let summary = match args.str_field("summary") {
        Some(s) => {
            if is_blank(s.as_str()) {
                return Err(SummaryError::EmptySummary);
            }
            s
        },
        None => {
            return Err(SummaryError::EmptySummary);
        },
    };
    let ids = match args.get("covered_message_ids") {
        Some(Json::Array(items)) => raw_string_items(items),
        _ => gather(own, MessageField::MessageId),
    };
    Ok((conv, summary, ids))
}

/// Reading never shows a message id twice: the recorded ids stay distinct
/// and apart from the injected and own messages' ids.
pub proof fn lemma_newly_read_is_fresh(shown: Seq<Seq<char>>, ids: Seq<Seq<char>>)
    ensures
        newly_read(shown, ids).no_duplicates(),
        forall|x: Seq<char>| #[trigger] newly_read(shown, ids).contains(x) ==> !shown.contains(x) && ids.contains(x),
    decreases ids.len(),
{
    if ids.len() > 0 {
        lemma_newly_read_is_fresh(shown, ids.drop_last());
        let before = newly_read(shown, ids.drop_last());
        let x = ids.last();
        if !(shown.contains(x) || before.contains(x)) {
            crate::session::lemma_push_contains(before, x);
            assert(ids[ids.len() - 1] == x);
        }
        assert forall|y: Seq<char>| #[trigger] newly_read(shown, ids).contains(y) implies !shown.contains(y)
            && ids.contains(y) by {
            if before.contains(y) {
                let t = choose|t: int| 0 <= t < ids.drop_last().len() && ids.drop_last()[t] == y;
                assert(ids[t] == y);
            } else {
                crate::session::lemma_push_contains(before, x);
                assert(ids[ids.len() - 1] == x);
            }
        }
    }
}

proof fn lemma_newly_read_covers(shown: Seq<Seq<char>>, ids: Seq<Seq<char>>)
    ensures
        forall|x: Seq<char>| #[trigger] ids.contains(x) ==> shown.contains(x) || newly_read(shown, ids).contains(x),
    decreases ids.len(),
{
    if ids.len() > 0 {
        let d = ids.drop_last();
        lemma_newly_read_covers(shown, d);
        let before = newly_read(shown, d);
        crate::session::lemma_push_contains(before, ids.last());
        assert forall|x: Seq<char>| #[trigger] ids.contains(x) implies shown.contains(x) || newly_read(shown, ids).contains(x) by {
            let t = choose|t: int| 0 <= t < ids.len() && ids[t] == x;
            if t < d.len() {
                assert(d[t] == x);
                assert(d.contains(x));
            }
        }
    }
}

proof fn lemma_nothing_new(shown: Seq<Seq<char>>, ms: Seq<StoredMessageFacts>)
    requires
        forall|k: int| 0 <= k < ms.len() ==> shown.contains(#[trigger] ms[k].readable_id@),
    ensures
        kept_reads(shown, ms).len() == 0,
        newly_read(shown, readable_ids(ms)).len() == 0,
    decreases ms.len(),
{
    if ms.len() > 0 {
        let d = ms.drop_last();
        assert forall|k: int| 0 <= k < d.len() implies shown.contains(#[trigger] d[k].readable_id@) by {
            assert(d[k] == ms[k]);
        }
        lemma_nothing_new(shown, d);
        assert(readable_ids(ms).drop_last() =~= readable_ids(d));
        assert(readable_ids(ms).last() == ms[ms.len() - 1].readable_id@);
    }
}

/// Reading the same messages again records nothing new: once a read is
/// recorded (the read messages' ids after it are those before it followed by
/// the newly read ones), every message of it counts as shown.
pub proof fn lemma_reading_again_adds_nothing(
    read: Seq<InboundMessage>,
    injected: Seq<InboundMessage>,
    own: Seq<InboundMessage>,
    ms: Seq<StoredMessageFacts>,
    after: Seq<InboundMessage>,
)
    requires
        ids_of(after) == ids_of(read) + newly_read(shown_ids(read, injected, own), readable_ids(ms)),
    ensures
        kept_reads(shown_ids(after, injected, own), ms).len() == 0,
        newly_read(shown_ids(after, injected, own), readable_ids(ms)).len() == 0,
{
    let shown0 = shown_ids(read, injected, own);
    let ids = readable_ids(ms);
    let nr = newly_read(shown0, ids);
    let shown1 = shown_ids(after, injected, own);
    lemma_newly_read_covers(shown0, ids);
    assert forall|k: int| 0 <= k < ms.len() implies shown1.contains(#[trigger] ms[k].readable_id@) by {
        let x = ms[k].readable_id@;
        assert(ids[k] == x);
        assert(ids.contains(x));
        let a = ids_of(read);
        let c = ids_of(injected) + ids_of(own);
        assert(shown0 =~= a + c);
        assert(shown1 =~= a + nr + c);
        lemma_concat_contains(a, c, x);
        lemma_concat_contains(a + nr, c, x);
        lemma_concat_contains(a, nr, x);
    }
    lemma_nothing_new(shown1, ms);
}

/// Recording the same read twice adds nothing the second time: the read
/// evidence after the second `record_read_evidence` is the evidence after
/// the first, and nothing else changes.
pub proof fn lemma_recording_a_read_twice_adds_nothing(
    s0: SessionState,
    s1: SessionState,
    s2: SessionState,
    own: Seq<InboundMessage>,
    conversation: Seq<char>,
    gateway_hint: Option<Seq<char>>,
    group: Option<Seq<char>>,
    ms: Seq<StoredMessageFacts>,
)
    requires
        read_recorded(s0, s1, own, conversation, gateway_hint, group, ms),
        read_recorded(s1, s2, own, conversation, gateway_hint, group, ms),
    ensures
        s2.presented_read_messages@ == s1.presented_read_messages@,
        s2 == (SessionState { presented_read_messages: s2.presented_read_messages, ..s1 }),
{
    assert(s1.presented_injected_messages == s0.presented_injected_messages);
    lemma_reading_again_adds_nothing(
        s0.presented_read_messages@,
        s0.presented_injected_messages@,
        own,
        ms,
        s1.presented_read_messages@,
    );
    assert(s2.presented_read_messages@ =~= s1.presented_read_messages@);
}

// ---------------------------------------------------------------------------
// Attachments
// ---------------------------------------------------------------------------

impl MediaKind {
    /// The media type a tool argument names.
    pub open spec fn parse_spec(s: Seq<char>) -> Option<MediaKind> {
        if s == "image"@ {
            Some(MediaKind::Image)
        } else if s == "video"@ {
            Some(MediaKind::Video)
        } else if s == "audio"@ {
            Some(MediaKind::Audio)
        } else if s == "sticker"@ {
            Some(MediaKind::Sticker)
        } else if s == "file"@ {
            Some(MediaKind::File)
        } else {
            None
        }
    }

    pub fn parse(s: &str) -> (r: Option<MediaKind>)
        ensures
            r == MediaKind::parse_spec(s@),
    {
        if str_eq(s, "image") {
            Some(MediaKind::Image)
        } else if str_eq(s, "video") {
            Some(MediaKind::Video)
        } else if str_eq(s, "audio") {
            Some(MediaKind::Audio)
        } else if str_eq(s, "sticker") {
            Some(MediaKind::Sticker)
        } else if str_eq(s, "file") {
            Some(MediaKind::File)
        } else {
            None
        }
    }
}

/// An attachment as plain values.
pub open spec fn attachment_view(a: MediaAttachment) -> (MediaKind, Option<Seq<char>>, Option<Seq<char>>, Option<
    Seq<char>,
>, Option<Seq<char>>, Option<u64>) {
    (a.kind, opt_view(a.asset_id), opt_view(a.url), opt_view(a.mime), opt_view(a.filename), a.size)
}

/// What one attachment description yields: nothing without a media type or
/// a source, an error for an unknown type; an asset id wins over a URL.
pub open spec fn parsed_attachment(v: Json) -> Result<
    Option<(MediaKind, Option<Seq<char>>, Option<Seq<char>>, Option<Seq<char>>, Option<Seq<char>>, Option<u64>)>,
    Seq<char>,
> {
    match v.str_at("media_type"@) {
        None => Ok(None),
        Some(k) => match MediaKind::parse_spec(k) {
            None => Err("Unknown media type: "@ + k),
            Some(kind) => {
                let asset = v.str_at("media_asset_id"@);
                let url = if asset is Some {
                    None
                } else {
                    v.str_at("media_url"@)
                };
                if asset is None && url is None {
                    Ok(None)
                } else {
                    Ok(Some((kind, asset, url, v.str_at("mime_type"@), v.str_at("filename"@), None)))
                }
            },
        },
    }
}

pub open spec fn parsed_list(items: Seq<Json>) -> Result<
    Seq<(MediaKind, Option<Seq<char>>, Option<Seq<char>>, Option<Seq<char>>, Option<Seq<char>>, Option<u64>)>,
    Seq<char>,
>
    decreases items.len(),
{
    if items.len() == 0 {
        Ok(Seq::empty())
    } else {
        match parsed_list(items.drop_last()) {
            Err(e) => Err(e),
            Ok(acc) => match parsed_attachment(items.last()) {
                Err(e) => Err(e),
                Ok(None) => Ok(acc),
                Ok(Some(a)) => Ok(acc.push(a)),
            },
        }
    }
}

/// The attachments of a send: each item of `attachments`, or the arguments
/// themselves as one description.
pub open spec fn parsed_attachments(args: Json) -> Result<
    Seq<(MediaKind, Option<Seq<char>>, Option<Seq<char>>, Option<Seq<char>>, Option<Seq<char>>, Option<u64>)>,
    Seq<char>,
> {
    match args.array_at("attachments"@) {
        Some(items) => parsed_list(items),
        None => match parsed_attachment(args) {
            Err(e) => Err(e),
            Ok(None) => Ok(Seq::empty()),
            Ok(Some(a)) => Ok(seq![a]),
        },
    }
}

pub open spec fn attachment_views(v: Seq<MediaAttachment>) -> Seq<
    (MediaKind, Option<Seq<char>>, Option<Seq<char>>, Option<Seq<char>>, Option<Seq<char>>, Option<u64>),
> {
    v.map_values(|a: MediaAttachment| attachment_view(a))
}

/// `parse_attachment`.
pub fn parse_attachment(v: &Json) -> (r: Result<Option<MediaAttachment>, String>)
    ensures
        match r {
            Ok(Some(a)) => parsed_attachment(*v) == Ok::<_, Seq<char>>(Some(attachment_view(a))),
            Ok(None) => parsed_attachment(*v) == Ok::<_, Seq<char>>(
                None::<(MediaKind, Option<Seq<char>>, Option<Seq<char>>, Option<Seq<char>>, Option<Seq<char>>, Option<u64>)>,
            ),
            Err(e) => parsed_attachment(*v) == Err::<
                Option<(MediaKind, Option<Seq<char>>, Option<Seq<char>>, Option<Seq<char>>, Option<Seq<char>>, Option<u64>)>,
                Seq<char>,
            >(e@),
        },
{
    let kind_str = match v.str_field("media_type") {
        Some(k) => k,
        None => {
            return Ok(None);
        },
    };
    let kind = match MediaKind::parse(kind_str.as_str()) {
        Some(k) => k,
        None => {
            let mut msg = owned("Unknown media type: ");
            append_str(&mut msg, kind_str.as_str());
            return Err(msg);
        },
    };
    let asset_id = v.str_field("media_asset_id");
    let url = if asset_id.is_some() {
        None
    } else {
        v.str_field("media_url")
    };
    if asset_id.is_none() && url.is_none() {
        return Ok(None);
    }
    Ok(
        Some(
            MediaAttachment {
                kind,
                asset_id,
                url,
                mime: v.str_field("mime_type"),
                filename: v.str_field("filename"),
                size: None,
            },
        ),
    )
}

/// `parse_attachments`; the error is the message the send answers with.
pub fn parse_attachments(args: &Json) -> (r: Result<Vec<MediaAttachment>, String>)
    ensures
        match r {
            Ok(v) => parsed_attachments(*args) == Ok::<_, Seq<char>>(attachment_views(v@)),
            Err(e) => parsed_attachments(*args) == Err::<
                Seq<(MediaKind, Option<Seq<char>>, Option<Seq<char>>, Option<Seq<char>>, Option<Seq<char>>, Option<u64>)>,
                Seq<char>,
            >(e@),
        },
{
    match args.get("attachments") {
        Some(Json::Array(items)) => {
            let mut out: Vec<MediaAttachment> = Vec::new();
            let mut i: usize = 0;
            assert(items@.take(0) =~= Seq::<Json>::empty());
            assert(attachment_views(out@) =~= Seq::empty());
            while i < items.len()
                invariant
                    0 <= i <= items.len(),
                    args.array_at("attachments"@) == Some(items@),
                    parsed_list(items@.take(i as int)) == Ok::<_, Seq<char>>(attachment_views(out@)),
                decreases items.len() - i,
            {
                assert(items@.take(i + 1).drop_last() =~= items@.take(i as int));
                assert(items@.take(i + 1).last() == items@[i as int]);
                match parse_attachment(&items[i]) {
                    Ok(Some(a)) => {
                        let ghost before = out@;
                        let ghost av = attachment_view(a);
                        out.push(a);
                        assert(attachment_views(out@) =~= attachment_views(before).push(av));
                    },
                    Ok(None) => {},
                    Err(e) => {
                        proof {
                            lemma_parsed_list_error_sticks(items@, i as int + 1, e@);
                        }
                        return Err(e);
                    },
                }
                i = i + 1;
            }
            assert(items@.take(items.len() as int) =~= items@);
            Ok(out)
        },
        _ => match parse_attachment(args) {
            Ok(Some(a)) => {
                let ghost av = attachment_view(a);
                let mut out: Vec<MediaAttachment> = Vec::new();
                out.push(a);
                assert(attachment_views(out@) =~= seq![av]);
                Ok(out)
            },
            Ok(None) => {
                let out: Vec<MediaAttachment> = Vec::new();
                assert(attachment_views(out@) =~= Seq::empty());
                Ok(out)
            },
            Err(e) => Err(e),
        },
    }
}

proof fn lemma_parsed_list_error_sticks(items: Seq<Json>, n: int, e: Seq<char>)
    requires
        0 < n <= items.len(),
        parsed_list(items.take(n)) == Err::<
            Seq<(MediaKind, Option<Seq<char>>, Option<Seq<char>>, Option<Seq<char>>, Option<Seq<char>>, Option<u64>)>,
            Seq<char>,
        >(e),
    ensures
        parsed_list(items) == Err::<
            Seq<(MediaKind, Option<Seq<char>>, Option<Seq<char>>, Option<Seq<char>>, Option<Seq<char>>, Option<u64>)>,
            Seq<char>,
        >(e),
    decreases items.len() - n,
{
    if n < items.len() {
        assert(items.take(n + 1).drop_last() =~= items.take(n));
        lemma_parsed_list_error_sticks(items, n + 1, e);
    } else {
        assert(items.take(n) =~= items);
    }
}

// ---------------------------------------------------------------------------
// Sending
// ---------------------------------------------------------------------------

/// A channel takes messages unless its metadata says `delivery_supported`
/// is false.
pub open spec fn allows_delivery(metadata: Json) -> bool {
    metadata.bool_at("delivery_supported"@) != Some(false)
}

/// `channel_allows_delivery`, on the channel's metadata.
pub fn channel_allows_delivery(metadata: &Json) -> (r: bool)
    ensures
        r == allows_delivery(*metadata),
{
    match metadata.bool_field("delivery_supported") {
        Some(false) => false,
        _ => true,
    }
}

/// A channel that the store resolved, as delivery reads it.
pub struct ChannelFacts {
    pub id: String,
    pub gateway_id: String,
    pub external_id: String,
    pub metadata: Json,
}

/// Where a send goes.
#[derive(Clone, Debug)]
pub struct DeliveryTarget {
    pub gateway_id: String,
    pub external_id: String,
    pub channel: String,
}

/// A resolved channel becomes the target, unless it refuses delivery; no
/// channel, no target.
pub fn delivery_target_from_channel(found: Option<ChannelFacts>) -> (r: Option<DeliveryTarget>)
    ensures
        match found {
            None => r is None,
            Some(c) => if allows_delivery(c.metadata) {
                r == Some(DeliveryTarget { gateway_id: c.gateway_id, external_id: c.external_id, channel: c.id })
            } else {
                r is None
            },
        },
{
    match found {
        None => None,
        Some(c) => if channel_allows_delivery(&c.metadata) {
            Some(DeliveryTarget { gateway_id: c.gateway_id, external_id: c.external_id, channel: c.id })
        } else {
            None
        },
    }
}

/// Where the reply to the session's first message goes: its gateway and the
/// external id it asks replies to go to. This is also where the composing
/// indicator is shown.
pub fn current_composing_target(own: &Vec<InboundMessage>) -> (r: Option<(String, String)>)
    ensures
        r == if own@.len() > 0 {
            Some((own@[0].gateway_id, own@[0].reply_external_id))
        } else {
            None
        },
{
    if own.len() > 0 {
        Some((own[0].gateway_id.clone(), own[0].reply_external_id.clone()))
    } else {
        None
    }
}

/// Which channel a send looks up.
#[derive(Clone, Debug)]
pub enum DeliveryLookup {
    /// The channel that this gateway and external id resolve to.
    Channel { gateway_id: String, external_id: String },
    /// The channel of this conversation.
    ConversationChannel(String),
    /// There is nowhere to look: the send has no target.
    Nowhere,
}

/// The lookup a send makes: the target the arguments name; else the reply
/// target of the session's first message; else the channel of the
/// session's conversation. Whatever is found goes through
/// `delivery_target_from_channel`.
pub open spec fn lookup_for(explicit: Option<(String, String)>, own: Seq<InboundMessage>, conversation: Option<String>) -> DeliveryLookup {
    match explicit {
        Some((g, t)) => DeliveryLookup::Channel { gateway_id: g, external_id: t },
        None => if own.len() > 0 {
            DeliveryLookup::Channel { gateway_id: own[0].gateway_id, external_id: own[0].reply_external_id }
        } else {
            match conversation {
                Some(c) => DeliveryLookup::ConversationChannel(c),
                None => DeliveryLookup::Nowhere,
            }
        },
    }
}

pub fn delivery_lookup(explicit: &Option<(String, String)>, own: &Vec<InboundMessage>, conversation: &Option<String>) -> (r: DeliveryLookup)
    ensures
        r == lookup_for(*explicit, own@, *conversation),
{
    match explicit {
        Some((g, t)) => DeliveryLookup::Channel { gateway_id: g.clone(), external_id: t.clone() },
        None => if own.len() > 0 {
            DeliveryLookup::Channel { gateway_id: own[0].gateway_id.clone(), external_id: own[0].reply_external_id.clone() }
        } else {
            match conversation {
                Some(c) => DeliveryLookup::ConversationChannel(c.clone()),
                None => DeliveryLookup::Nowhere,
            }
        },
    }
}

/// A send the tool arguments ask for.
pub struct SendRequest {
    /// The text to send, with dashes normalized.
    pub content: String,
    /// `(gateway_id, external_id)` when both are given.
    pub explicit_target: Option<(String, String)>,
    pub attachments: Vec<MediaAttachment>,
}

/// Reads `send_message`'s arguments; the error is the message the tool
/// answers with.
pub fn plan_send(args: &Json) -> (r: Result<SendRequest, String>)
    ensures
        match r {
            Ok(req) => {
                &&& req.content@ == crate::text::normalized(match args.str_at("content"@) {
                    Some(c) => c,
                    None => Seq::empty(),
                })
                &&& parsed_attachments(*args) == Ok::<_, Seq<char>>(attachment_views(req.attachments@))
                &&& match req.explicit_target {
                    Some((g, t)) => args.str_at("gateway_id"@) == Some(g@) && args.str_at("external_id"@) == Some(t@),
                    None => args.str_at("gateway_id"@) is None || args.str_at("external_id"@) is None,
                }
            },
            Err(e) => parsed_attachments(*args) == Err::<
                Seq<(MediaKind, Option<Seq<char>>, Option<Seq<char>>, Option<Seq<char>>, Option<Seq<char>>, Option<u64>)>,
                Seq<char>,
            >(e@),
        },
{
    let raw = match args.str_field("content") {
        Some(c) => c,
        None => String::new(),
    };
    let content = crate::text::normalize_outbound_text(raw.as_str());
    let attachments = match parse_attachments(args) {
        Ok(a) => a,
        Err(e) => {
            return Err(e);
        },
    };
    let explicit_target = match (args.str_field("gateway_id"), args.str_field("external_id")) {
        (Some(g), Some(t)) => Some((g, t)),
        _ => None,
    };
    Ok(SendRequest { content, explicit_target, attachments })
}

/// `outbound_metadata`, given the send's attachments as JSON (none when it
/// has no attachments): null, or an object holding them.
pub fn outbound_metadata(attachments: Option<Json>) -> (r: Json)
    ensures
        match attachments {
            None => r == Json::Null,
            Some(a) => r is Object && r.field("attachments"@) == Some(a) && forall|k: Seq<char>|
                k != "attachments"@ ==> #[trigger] r.field(k) is None,
        },
{
    match attachments {
        None => Json::Null,
        Some(a) => {
            let mut entries: Vec<(String, Json)> = Vec::new();
            crate::json::object_insert(&mut entries, "attachments", a);
            Json::Object(entries)
        },
    }
}

/// The metadata a delivered message is stored with: its attachments where
/// it has any, the outbound message's id and the channel it went out on.
pub fn outbound_message_metadata(attachments: Option<Json>, message_id: &String, channel: &String) -> (r: Json)
    ensures
        r is Object,
        r.field("attachments"@) == attachments,
        r.str_at("message_id"@) == Some(message_id@),
        r.str_at("channel_id"@) == Some(channel@),
        forall|k: Seq<char>| k != "attachments"@ && k != "message_id"@ && k != "channel_id"@ ==> #[trigger] r.field(k)
            is None,
{
    proof {
        reveal_strlit("attachments");
        reveal_strlit("message_id");
        reveal_strlit("channel_id");
        assert("attachments"@[0] != "message_id"@[0]);
        assert("attachments"@[0] != "channel_id"@[0]);
        assert("message_id"@[0] != "channel_id"@[0]);
    }
    let ghost a0 = attachments;
    let base = outbound_metadata(attachments);
    let ghost b0 = base;
    let mut entries: Vec<(String, Json)> = match base {
        Json::Object(entries) => entries,
        _ => Vec::new(),
    };
    let ghost e0 = entries@;
    assert forall|k: Seq<char>| k != "attachments"@ implies #[trigger] crate::json::entries_lookup(e0, k) is None by {
        if a0 is Some {
            assert(b0.field(k) is None);
        }
    }
    crate::json::object_insert(&mut entries, "message_id", Json::Str(message_id.clone()));
    let ghost e1 = entries@;
    crate::json::object_insert(&mut entries, "channel_id", Json::Str(channel.clone()));
    assert forall|k: Seq<char>| k != "attachments"@ && k != "message_id"@ && k != "channel_id"@ implies
        #[trigger] crate::json::entries_lookup(entries@, k) is None by {
        assert(crate::json::entries_lookup(entries@, k) == crate::json::entries_lookup(e1, k));
        assert(crate::json::entries_lookup(e1, k) == crate::json::entries_lookup(e0, k));
    }
    Json::Object(entries)
}

/// What a send answers when it has nowhere to go.
pub fn no_delivery_target_reply() -> (r: &'static str)
    ensures
        r@ == "No delivery target \u{2014} message not sent."@,
{
    "No delivery target \u{2014} message not sent."
}

/// How long a typing indicator counts as active, in seconds.
pub const TYPING_ACTIVE_SECS: i64 = 10;
/// Whether a typing indicator that started at `started_at` is still active.
pub fn typing_is_active(now: i64, started_at: i64) -> (r: bool)
    ensures
        r == (now - started_at <= TYPING_ACTIVE_SECS),
{
    (now as i128) - (started_at as i128) <= (TYPING_ACTIVE_SECS as i128)
}

/// The send is under way: the session has tried to deliver.
pub fn begin_delivery(state: &mut SessionState)
    ensures
        *final(state) == (SessionState { attempted_send: true, ..*old(state) }),
{
    state.attempted_send = true;
}

/// The composing indicator goes away with the first message to the target
/// it was shown for.
pub open spec fn releases_composing(state: SessionState, composing: Option<(String, String)>, gateway: Seq<char>, target: Seq<char>) -> bool {
    !state.composing_released && match composing {
        Some((g, t)) => g@ == gateway && t@ == target,
        None => false,
    }
}

pub fn should_release_composing(
    state: &SessionState,
    composing: &Option<(String, String)>,
    gateway: &String,
    target: &String,
) -> (r: bool)
    ensures
        r == releases_composing(*state, *composing, gateway@, target@),
{
    !state.composing_released && match composing {
        Some((g, t)) => *g == *gateway && *t == *target,
        None => false,
    }
}

/// Records the outcome of a delivery: a delivered message marks the session
/// responded; a failed one does not.
pub fn settle_delivery(state: &mut SessionState, delivered: bool, released_composing: bool)
    ensures
        final(state).responded == (old(state).responded || delivered),
        final(state).composing_released == (old(state).composing_released || released_composing),
        *final(state) == (SessionState {
            responded: final(state).responded,
            composing_released: final(state).composing_released,
            ..*old(state)
        }),
{
    if delivered {
        state.responded = true;
    }
    if released_composing {
        state.composing_released = true;
    }
}

/// The role the action log gives a sent message.
pub fn delivery_role(delivered: bool) -> (r: &'static str)
    ensures
        r@ == if delivered {
            "assistant"@
        } else {
            "assistant_delivery_failed"@
        },
{
    if delivered {
        "assistant"
    } else {
        "assistant_delivery_failed"
    }
}

/// The delivery status recorded for a send.
pub fn delivery_status(delivered: bool) -> (r: &'static str)
    ensures
        r@ == if delivered {
            "delivered"@
        } else {
            "failed"@
        },
{
    if delivered {
        "delivered"
    } else {
        "failed"
    }
}

/// How a delivered message counts in the relationship.
#[derive(PartialEq, Eq, Structural, Clone, Copy, Debug)]
pub enum Interaction {
    Outbound,
    ProactiveOutbound,
}

/// Outreach is proactive; every other send answers someone.
pub fn interaction_for(kind: SessionKind) -> (r: Interaction)
    ensures
        r == if kind == SessionKind::Action(ActionKind::Outreach) {
            Interaction::ProactiveOutbound
        } else {
            Interaction::Outbound
        },
{
    match kind {
        SessionKind::Action(ActionKind::Outreach) => Interaction::ProactiveOutbound,
        _ => Interaction::Outbound,
    }
}

/// The answer of `send_message`.
pub open spec fn send_reply_spec(
    delivered: bool,
    explicit: bool,
    gateway: Seq<char>,
    target: Seq<char>,
    error: Seq<char>,
    review_queued: bool,
) -> Seq<char> {
    if delivered {
        if explicit {
            "Message sent to "@ + gateway + ":"@ + target + "."@
        } else {
            "Message sent."@
        }
    } else if review_queued {
        "Delivery failed; message was not added to visible conversation history and is not marked delivered. Chosen-human review is queued: "@
            + error
    } else {
        "Delivery failed; message was not added to visible conversation history and is not marked delivered: "@
            + error
    }
}

pub fn send_reply(
    delivered: bool,
    explicit: bool,
    gateway: &str,
    target: &str,
    error: &str,
    review_queued: bool,
) -> (r: String)
    ensures
        r@ == send_reply_spec(delivered, explicit, gateway@, target@, error@, review_queued),
{
    if delivered {
        if explicit {
            let mut out = owned("Message sent to ");
            append_str(&mut out, gateway);
            append_str(&mut out, ":");
            append_str(&mut out, target);
            append_str(&mut out, ".");
            out
        } else {
            owned("Message sent.")
        }
    } else if review_queued {
        let mut out = owned(
            "Delivery failed; message was not added to visible conversation history and is not marked delivered. Chosen-human review is queued: ",
        );
        append_str(&mut out, error);
        out
    } else {
        let mut out = owned(
            "Delivery failed; message was not added to visible conversation history and is not marked delivered: ",
        );
        append_str(&mut out, error);
        out
    }
}

/// The task of the chosen person's review of a failed delivery.
pub open spec fn failure_review_task(
    action: Seq<char>,
    gateway: Seq<char>,
    target: Seq<char>,
    conversation: Option<Seq<char>>,
    content: Seq<char>,
    error: Seq<char>,
) -> Seq<char> {
    "Review failed outbound delivery from action "@ + action + ". Target: "@ + gateway + ":"@ + target
        + ". Conversation: "@ + match conversation {
        Some(c) => c,
        None => "none"@,
    } + ". Message length: "@ + crate::social_read::decimal(content.len()) + " chars. Error: "@ + error
        + ". Decide whether to retry manually, update gateway setup, or ignore."@
}

/// The dedupe key of that review: one per action and target.
pub open spec fn failure_review_key(action: Seq<char>, gateway: Seq<char>, target: Seq<char>) -> Seq<char> {
    "delivery-failure-review:"@ + action + ":"@ + gateway + ":"@ + target
}

/// The intent that asks the chosen person to look at a failed delivery: due
/// now, active, top priority.
pub fn delivery_failure_review(
    action: &str,
    gateway: &str,
    target: &str,
    conversation: &Option<String>,
    content: &str,
    error: &str,
    chosen_person: &String,
    now: i64,
) -> (r: crate::intent::IntentDraft)
    ensures
        r.kind@ == "scheduled"@,
        r.status == crate::intent::IntentStatus::Active,
        r.task@ == failure_review_task(action@, gateway@, target@, opt_view(*conversation), content@, error@),
        opt_view(r.person) == Some(chosen_person@),
        r.profile is None && r.conversation is None,
        r.fire_at == Some(now),
        r.condition is None && r.recurrence is None,
        r.priority == 100,
        opt_view(r.dedupe_key) == Some(failure_review_key(action@, gateway@, target@)),
        r.source_memory is None,
        opt_view(r.source_action) == Some(action@),
        r.chosen_person_approved,
{
    let mut task = owned("Review failed outbound delivery from action ");
    append_str(&mut task, action);
    append_str(&mut task, ". Target: ");
    append_str(&mut task, gateway);
    append_str(&mut task, ":");
    append_str(&mut task, target);
    append_str(&mut task, ". Conversation: ");
    match conversation {
        Some(c) => append_str(&mut task, c.as_str()),
        None => append_str(&mut task, "none"),
    }
    append_str(&mut task, ". Message length: ");
    let n = crate::text::chars_of(content).len();
    crate::social_read::push_decimal(&mut task, n as u64);
    append_str(&mut task, " chars. Error: ");
    append_str(&mut task, error);
    append_str(&mut task, ". Decide whether to retry manually, update gateway setup, or ignore.");
    let mut key = owned("delivery-failure-review:");
    append_str(&mut key, action);
    append_str(&mut key, ":");
    append_str(&mut key, gateway);
    append_str(&mut key, ":");
    append_str(&mut key, target);
    assert(task@ =~= failure_review_task(action@, gateway@, target@, opt_view(*conversation), content@, error@));
    assert(key@ =~= failure_review_key(action@, gateway@, target@));
    crate::intent::IntentDraft {
        kind: owned("scheduled"),
        status: crate::intent::IntentStatus::Active,
        task,
        person: Some(chosen_person.clone()),
        profile: None,
        conversation: None,
        fire_at: Some(now),
        condition: None,
        recurrence: None,
        priority: 100,
        dedupe_key: Some(key),
        source_memory: None,
        source_action: Some(owned(action)),
        chosen_person_approved: true,
    }
}

/// The person a delivered message counts toward: the current sender's
/// person, else the person of the conversation's summary.
pub open spec fn outbound_person_spec(
    own: Seq<InboundMessage>,
    conversation: Option<Seq<char>>,
    conversations: Seq<crate::model::ConversationFacts>,
) -> Option<Seq<char>> {
    if own.len() > 0 && own[0].person is Some {
        opt_view(own[0].person)
    } else {
        match conversation {
            Some(c) => match first_conversation(conversations, c) {
                Some(f) => opt_view(f.person),
                None => None,
            },
            None => None,
        }
    }
}

/// The first summary of the conversation.
pub open spec fn first_conversation(cs: Seq<crate::model::ConversationFacts>, id: Seq<char>) -> Option<
    crate::model::ConversationFacts,
>
    decreases cs.len(),
{
    if cs.len() == 0 {
        None
    } else if cs[0].id@ == id {
        Some(cs[0])
    } else {
        first_conversation(cs.drop_first(), id)
    }
}

/// `outbound_relationship_person`, over the stored conversation summaries.
#[verifier::loop_isolation(false)]
pub fn outbound_relationship_person(
    own: &Vec<InboundMessage>,
    conversation: &Option<String>,
    conversations: &Vec<crate::model::ConversationFacts>,
) -> (r: Option<String>)
    ensures
        opt_view(r) == outbound_person_spec(own@, opt_view(*conversation), conversations@),
{
    if own.len() > 0 {
        match &own[0].person {
            Some(p) => {
                return Some(p.clone());
            },
            None => {},
        }
    }
    let c = match conversation {
        Some(c) => c,
        None => {
            return None;
        },
    };
    let mut i: usize = 0;
    assert(conversations@.skip(0) =~= conversations@);
    while i < conversations.len()
        invariant
            0 <= i <= conversations.len(),
            first_conversation(conversations@, c@) == first_conversation(conversations@.skip(i as int), c@),
        decreases conversations.len() - i,
    {
        assert(conversations@.skip(i as int).drop_first() =~= conversations@.skip(i + 1));
        assert(conversations@.skip(i as int)[0] == conversations@[i as int]);
        if conversations[i].id == *c {
            return crate::model::copy_opt(&conversations[i].person);
        }
        i = i + 1;
    }
    None
}

// ---------------------------------------------------------------------------
// Recent messages in the prompt
// ---------------------------------------------------------------------------

/// A stored message as the prompt shows it.
pub struct RecentMessageCtx {
    pub message_id: String,
    pub role: String,
    pub speaker: Option<String>,
    pub content: String,
}

/// Who spoke: the sender, else the reply target, else the profile, else the
/// person.
pub open spec fn speaker_of(m: StoredMessageFacts) -> Option<Seq<char>> {
    match m.sender_external_id {
        Some(x) => Some(x@),
        None => match m.reply_external_id {
            Some(x) => Some(x@),
            None => match m.profile {
                Some(x) => Some(x@),
                None => opt_view(m.person),
            },
        },
    }
}

/// `recent_message_ctx`.
pub fn recent_message_ctx(m: &StoredMessageFacts) -> (r: RecentMessageCtx)
    ensures
        r.message_id@ == m.readable_id@,
        r.role@ == m.role@,
        opt_view(r.speaker) == speaker_of(*m),
        r.content@ == m.content@,
{
    let speaker = match &m.sender_external_id {
        Some(x) => Some(x.clone()),
        None => match &m.reply_external_id {
            Some(x) => Some(x.clone()),
            None => match &m.profile {
                Some(x) => Some(x.clone()),
                None => crate::model::copy_opt(&m.person),
            },
        },
    };
    RecentMessageCtx {
        message_id: m.readable_id.clone(),
        role: m.role.clone(),
        speaker,
        content: m.content.clone(),
    }
}

/// The stored messages the prompt shows as recent: those not sourced from
/// one of the session's own messages.
pub open spec fn shown_as_recent(m: StoredMessageFacts, own: Seq<InboundMessage>) -> bool {
    match m.source_message_id {
        Some(id) => !ids_of(own).contains(id@),
        None => true,
    }
}

pub open spec fn recent_shown(ms: Seq<StoredMessageFacts>, own: Seq<InboundMessage>) -> Seq<StoredMessageFacts>
    decreases ms.len(),
{
    if ms.len() == 0 {
        Seq::empty()
    } else if shown_as_recent(ms.last(), own) {
        recent_shown(ms.drop_last(), own).push(ms.last())
    } else {
        recent_shown(ms.drop_last(), own)
    }
}

pub open spec fn recent_view(r: RecentMessageCtx) -> (Seq<char>, Seq<char>, Option<Seq<char>>, Seq<char>) {
    (r.message_id@, r.role@, opt_view(r.speaker), r.content@)
}

pub open spec fn expected_recent(m: StoredMessageFacts) -> (Seq<char>, Seq<char>, Option<Seq<char>>, Seq<char>) {
    (m.readable_id@, m.role@, speaker_of(m), m.content@)
}

/// `fetch_recent_messages`' selection over the stored messages.
pub fn recent_messages(stored: &Vec<StoredMessageFacts>, own: &Vec<InboundMessage>) -> (r: Vec<RecentMessageCtx>)
    ensures
        r@.map_values(|c: RecentMessageCtx| recent_view(c)) == recent_shown(stored@, own@).map_values(
            |m: StoredMessageFacts| expected_recent(m),
        ),
{
    let mut out: Vec<RecentMessageCtx> = Vec::new();
    let mut i: usize = 0;
    while i < stored.len()
        invariant
            0 <= i <= stored.len(),
            out@.map_values(|c: RecentMessageCtx| recent_view(c)) == recent_shown(stored@.take(i as int), own@).map_values(
                |m: StoredMessageFacts| expected_recent(m),
            ),
        decreases stored.len() - i,
    {
        assert(stored@.take(i + 1).drop_last() =~= stored@.take(i as int));
        assert(stored@.take(i + 1).last() == stored@[i as int]);
        let m = &stored[i];
        let keep = match &m.source_message_id {
            Some(id) => !contains_id(own, id),
            None => true,
        };
        if keep {
            let ghost before = out@;
            let c = recent_message_ctx(m);
            out.push(c);
            assert(out@.map_values(|c: RecentMessageCtx| recent_view(c)) =~= before.map_values(
                |c: RecentMessageCtx| recent_view(c),
            ).push(expected_recent(stored@[i as int])));
            assert(recent_shown(stored@.take(i + 1), own@).map_values(|m: StoredMessageFacts| expected_recent(m))
                =~= recent_shown(stored@.take(i as int), own@).map_values(|m: StoredMessageFacts| expected_recent(m)).push(
                expected_recent(stored@[i as int]),
            ));
        }
        i = i + 1;
    }
    assert(stored@.take(stored.len() as int) =~= stored@);
    out
}

/// The messages of a read shown as `message_json` shows each, with its
/// person's name and its attachments.
pub open spec fn read_items_ok(
    v: Seq<Json>,
    messages: Seq<StoredMessageFacts>,
    extras: Seq<(Option<String>, Option<Json>)>,
) -> bool {
    &&& v.len() == messages.len()
    &&& forall|k: int| 0 <= k < v.len() ==> message_json_ok(#[trigger] v[k], messages[k], extras[k].0, extras[k].1)
}

/// The messages of a read as JSON, in order; `extras[k]` is the person's name
/// and the attachments of message `k`.
pub fn read_items(messages: &Vec<StoredMessageFacts>, extras: Vec<(Option<String>, Option<Json>)>) -> (r: Vec<Json>)
    requires
        extras@.len() == messages@.len(),
    ensures
        read_items_ok(r@, messages@, extras@),
{
    let ghost all = extras@;
    let mut rest = extras;
    let mut out: Vec<Json> = Vec::new();
    let mut i: usize = 0;
    assert(rest@ =~= all.skip(0));
    while i < messages.len()
        invariant
            all.len() == messages@.len(),
            0 <= i <= messages@.len(),
            rest@ == all.skip(i as int),
            out@.len() == i,
            forall|k: int| 0 <= k < i ==> message_json_ok(#[trigger] out@[k], messages@[k], all[k].0, all[k].1),
        decreases messages@.len() - i,
    {
        let (name, attachments) = rest.remove(0);
        proof {
            assert(all[i as int] == (name, attachments));
            assert(rest@ =~= all.skip(i + 1));
        }
        let item = message_json(&messages[i], &name, attachments);
        out.push(item);
        i = i + 1;
    }
    out
}

/// An object with one key.
fn single_entry(key: &str, value: Json) -> (r: Json)
    ensures
        r.field(key@) == Some(value),
        forall|k: Seq<char>| k != key@ ==> #[trigger] r.field(k) is None,
{
    let mut e: Vec<(String, Json)> = Vec::new();
    crate::json::object_insert(&mut e, key, value);
    Json::Object(e)
}

/// `read_conversation_messages` once the store answered with `messages`: an
/// empty read shows no messages and records nothing; otherwise the messages
/// are recorded as read evidence and shown in order.
pub fn conversation_read_reply(
    state: &mut SessionState,
    own: &Vec<InboundMessage>,
    conversation: &String,
    gateway_hint: &Option<String>,
    group: &Option<String>,
    messages: &Vec<StoredMessageFacts>,
    extras: Vec<(Option<String>, Option<Json>)>,
) -> (r: Json)
    requires
        extras@.len() == messages@.len(),
    ensures
        messages@.len() == 0 ==> *final(state) == *old(state),
        messages@.len() > 0 ==> read_recorded(
            *old(state),
            *final(state),
            own@,
            conversation@,
            opt_view(*gateway_hint),
            opt_view(*group),
            messages@,
        ),
        match r.field("messages"@) {
            Some(Json::Array(v)) => read_items_ok(v@, messages@, extras@),
            _ => false,
        },
        forall|k: Seq<char>| k != "messages"@ ==> #[trigger] r.field(k) is None,
{
    if messages.len() > 0 {
        record_read_evidence(state, own, conversation, gateway_hint, group, messages);
    }
    let items = read_items(messages, extras);
    single_entry("messages", Json::Array(items))
}

/// The answer of a read that failed in the store.
pub fn read_error_reply(error: String) -> (r: Json)
    ensures
        r.field("error"@) == Some(Json::Str(error)),
        forall|k: Seq<char>| k != "error"@ ==> #[trigger] r.field(k) is None,
{
    single_entry("error", Json::Str(error))
}

proof fn lemma_conversation_keys_distinct()
    ensures
        "conversation"@ != "gateway_id"@,
        "conversation"@ != "group"@,
        "conversation"@ != "summary"@,
        "conversation"@ != "messages"@,
        "gateway_id"@ != "group"@,
        "gateway_id"@ != "summary"@,
        "gateway_id"@ != "messages"@,
        "group"@ != "summary"@,
        "group"@ != "messages"@,
        "summary"@ != "messages"@,
{
    reveal_strlit("conversation");
    reveal_strlit("gateway_id");
    reveal_strlit("group");
    reveal_strlit("summary");
    reveal_strlit("messages");
    assert("conversation"@[0] != "gateway_id"@[0]);
    assert("conversation"@[0] != "group"@[0]);
    assert("conversation"@[0] != "summary"@[0]);
    assert("conversation"@[0] != "messages"@[0]);
    assert("gateway_id"@[1] != "group"@[1]);
    assert("gateway_id"@[0] != "summary"@[0]);
    assert("gateway_id"@[0] != "messages"@[0]);
    assert("group"@[0] != "summary"@[0]);
    assert("group"@[0] != "messages"@[0]);
    assert("summary"@[0] != "messages"@[0]);
}

/// One conversation of a read of recent conversations: its id, gateway,
/// group and summary (null where unknown) and its messages.
pub fn recent_conversation_entry(
    conversation: String,
    gateway_id: Option<String>,
    group: Option<String>,
    summary: Option<String>,
    items: Vec<Json>,
) -> (r: Json)
    ensures
        r.field("conversation"@) == Some(Json::Str(conversation)),
        r.field("gateway_id"@) == Some(opt_json(gateway_id)),
        r.field("group"@) == Some(opt_json(group)),
        r.field("summary"@) == Some(opt_json(summary)),
        r.field("messages"@) == Some(Json::Array(items)),
        forall|k: Seq<char>|
            k != "conversation"@ && k != "gateway_id"@ && k != "group"@ && k != "summary"@ && k != "messages"@
                ==> #[trigger] r.field(k) is None,
{
    proof {
        lemma_conversation_keys_distinct();
    }
    let g = opt_json_exec(&gateway_id);
    let gr = opt_json_exec(&group);
    let su = opt_json_exec(&summary);
    let mut e: Vec<(String, Json)> = Vec::new();
    crate::json::object_insert(&mut e, "conversation", Json::Str(conversation));
    crate::json::object_insert(&mut e, "gateway_id", g);
    crate::json::object_insert(&mut e, "group", gr);
    crate::json::object_insert(&mut e, "summary", su);
    crate::json::object_insert(&mut e, "messages", Json::Array(items));
    Json::Object(e)
}

/// The answer of a read of recent conversations.
pub fn recent_conversations_reply(entries: Vec<Json>) -> (r: Json)
    ensures
        r.field("conversations"@) == Some(Json::Array(entries)),
        forall|k: Seq<char>| k != "conversations"@ ==> #[trigger] r.field(k) is None,
{
    single_entry("conversations", Json::Array(entries))
}

/// A send goes ahead only with a target: without one the answer is
/// `no_delivery_target_reply` and the session is untouched (it has not tried
/// to deliver); with one the session notes that it tries.
pub fn prepare_send(state: &mut SessionState, target: Option<DeliveryTarget>) -> (r: Result<DeliveryTarget, String>)
    ensures
        match target {
            None => r matches Err(e) && e@ == "No delivery target \u{2014} message not sent."@ && *final(state)
                == *old(state),
            Some(t) => r == Ok::<DeliveryTarget, String>(t) && *final(state) == (SessionState {
                attempted_send: true,
                ..*old(state)
            }),
        },
{
    match target {
        None => Err(owned(no_delivery_target_reply())),
        Some(t) => {
            begin_delivery(state);
            Ok(t)
        },
    }
}

/// A sent message as the conversation history stores it (role assistant).
pub struct OutboundStored {
    pub conversation: String,
    pub content: String,
    pub reply_external_id: String,
    pub metadata: Json,
    pub timestamp: i64,
}

/// The record of one delivery attempt.
pub struct DeliveryRecord {
    pub action_id: String,
    pub conversation: Option<String>,
    pub message_id: String,
    pub channel: String,
    pub gateway_id: String,
    pub external_id: String,
    pub status: String,
    pub error: Option<String>,
    pub attempted_at: i64,
}

/// The log entry linking the action to the message it tried to send.
pub struct ActionMessageRecord {
    pub action_id: String,
    pub role: String,
    pub conversation: Option<String>,
    pub reply_external_id: String,
    pub content: String,
    pub created_at: i64,
}

/// What a send writes once the gateway answered.
pub struct SendRecords {
    /// The composing indicator of the target goes away with this send.
    pub release_composing: bool,
    pub action_message: ActionMessageRecord,
    /// The message stored in the conversation's history: only a delivered one.
    pub stored: Option<OutboundStored>,
    pub delivery: DeliveryRecord,
}

/// `send`'s bookkeeping after the gateway answered `delivered` (its error
/// otherwise): the action log entry, the history entry of a delivered message
/// (with its attachments, its id and its channel), the delivery record, and
/// the session's state: responded only when delivered, composing released
/// with the first message to its target.
pub fn settle_send(
    state: &mut SessionState,
    target: &DeliveryTarget,
    composing: &Option<(String, String)>,
    conversation: &Option<String>,
    content: &String,
    attachments: Option<Json>,
    message_id: &String,
    action_id: &String,
    delivered: &Result<(), String>,
    now: i64,
) -> (r: SendRecords)
    ensures
        r.release_composing == releases_composing(*old(state), *composing, target.gateway_id@, target.external_id@),
        final(state).responded == (old(state).responded || delivered is Ok),
        final(state).composing_released == (old(state).composing_released || r.release_composing),
        *final(state) == (SessionState {
            responded: final(state).responded,
            composing_released: final(state).composing_released,
            ..*old(state)
        }),
        r.action_message.action_id@ == action_id@,
        r.action_message.role@ == (if delivered is Ok { "assistant"@ } else { "assistant_delivery_failed"@ }),
        opt_view(r.action_message.conversation) == opt_view(*conversation),
        r.action_message.reply_external_id@ == target.external_id@,
        r.action_message.content@ == content@,
        r.action_message.created_at == now,
        match r.stored {
            Some(m) => {
                &&& delivered is Ok
                &&& conversation is Some && m.conversation@ == conversation->0@
                &&& m.content@ == content@
                &&& m.reply_external_id@ == target.external_id@
                &&& m.timestamp == now
                &&& m.metadata is Object
                &&& m.metadata.field("attachments"@) == attachments
                &&& m.metadata.str_at("message_id"@) == Some(message_id@)
                &&& m.metadata.str_at("channel_id"@) == Some(target.channel@)
                &&& forall|k: Seq<char>|
                    k != "attachments"@ && k != "message_id"@ && k != "channel_id"@ ==> #[trigger] m.metadata.field(k) is None
            },
            None => delivered is Err || conversation is None,
        },
        r.delivery.action_id@ == action_id@,
        opt_view(r.delivery.conversation) == opt_view(*conversation),
        r.delivery.message_id@ == message_id@,
        r.delivery.channel@ == target.channel@,
        r.delivery.gateway_id@ == target.gateway_id@,
        r.delivery.external_id@ == target.external_id@,
        r.delivery.status@ == (if delivered is Ok { "delivered"@ } else { "failed"@ }),
        opt_view(r.delivery.error) == match delivered {
            Ok(_) => None,
            Err(e) => Some(e@),
        },
        r.delivery.attempted_at == now,
{
    let release = should_release_composing(state, composing, &target.gateway_id, &target.external_id);
    let ok = delivered.is_ok();
    settle_delivery(state, ok, release);
    let action_message = ActionMessageRecord {
        action_id: action_id.clone(),
        role: owned(delivery_role(ok)),
        conversation: crate::model::copy_opt(conversation),
        reply_external_id: target.external_id.clone(),
        content: content.clone(),
        created_at: now,
    };
    let stored = if ok {
        match conversation {
            Some(c) => Some(
                OutboundStored {
                    conversation: c.clone(),
                    content: content.clone(),
                    reply_external_id: target.external_id.clone(),
                    metadata: outbound_message_metadata(attachments, message_id, &target.channel),
                    timestamp: now,
                },
            ),
            None => None,
        }
    } else {
        None
    };
    let error = match delivered {
        Ok(_) => None,
        Err(e) => Some(e.clone()),
    };
    let delivery = DeliveryRecord {
        action_id: action_id.clone(),
        conversation: crate::model::copy_opt(conversation),
        message_id: message_id.clone(),
        channel: target.channel.clone(),
        gateway_id: target.gateway_id.clone(),
        external_id: target.external_id.clone(),
        status: owned(delivery_status(ok)),
        error,
        attempted_at: now,
    };
    SendRecords { release_composing: release, action_message, stored, delivery }
}

/// An inbound message as the conversation history stores it (role user).
pub struct StoredInbound {
    pub timestamp: i64,
    pub content: String,
    pub identity: Option<String>,
    pub profile: Option<String>,
    pub person: Option<String>,
    pub source_gateway_id: String,
    pub source_message_id: String,
    pub sender_external_id: String,
    pub reply_external_id: String,
    pub metadata: Json,
}

/// `ingest_messages`' record of one message: its text, who it is from and
/// where a reply goes, with the metadata `message_metadata` builds for it.
pub fn stored_inbound(m: &InboundMessage, metadata: Json) -> (r: StoredInbound)
    ensures
        r.timestamp == m.timestamp,
        r.content@ == m.content@,
        r.identity == m.identity,
        r.profile == m.profile,
        r.person == m.person,
        r.source_gateway_id@ == m.gateway_id@,
        r.source_message_id@ == m.message_id@,
        r.sender_external_id@ == m.sender_external_id@,
        r.reply_external_id@ == m.reply_external_id@,
        r.metadata == metadata,
{
    StoredInbound {
        timestamp: m.timestamp,
        content: m.content.clone(),
        identity: crate::model::copy_opt(&m.identity),
        profile: crate::model::copy_opt(&m.profile),
        person: crate::model::copy_opt(&m.person),
        source_gateway_id: m.gateway_id.clone(),
        source_message_id: m.message_id.clone(),
        sender_external_id: m.sender_external_id.clone(),
        reply_external_id: m.reply_external_id.clone(),
        metadata,
    }
}

} // verus!
