//! Memory formation: which evidence a new memory rests on, whom it is about,
//! and how its stored content names its subjects.
use vstd::prelude::*;
use crate::json::Json;
use crate::model::{InboundMessage, LinkStatus, MemorySubject, MemorySubjectType, ProfileLink, same_message};
use crate::session::SessionState;
use crate::session::keys_view;
use crate::text::{
    append_str, chars_of, clean_display_name, contains_seq, is_prefix, join, joined, last_occurrence, occurs_at, owned,
    rfind, squashed, starts_with, string_of_range, trim, trim_seq,
};

verus! {

// ---------------------------------------------------------------------------
// String arrays in tool arguments
// ---------------------------------------------------------------------------

/// The string items of a JSON array, trimmed, without the empty ones.
pub open spec fn string_items(items: Seq<Json>) -> Seq<Seq<char>>
    decreases items.len(),
{
    if items.len() == 0 {
        Seq::empty()
    } else {
        let rest = string_items(items.drop_last());
        match items.last() {
            Json::Str(s) => if trim_seq(s@).len() > 0 {
                rest.push(trim_seq(s@))
            } else {
                rest
            },
            _ => rest,
        }
    }
}

/// `string_array(&args[key])`: nothing unless the field is an array.
pub open spec fn string_array_at(args: Json, key: Seq<char>) -> Seq<Seq<char>> {
    match args.array_at(key) {
        Some(items) => string_items(items),
        None => Seq::empty(),
    }
}

fn string_items_of(items: &Vec<Json>) -> (r: Vec<String>)
    ensures
        keys_view(r@) == string_items(items@),
{
    let mut out: Vec<String> = Vec::new();
    let mut i: usize = 0;
    while i < items.len()
        invariant
            0 <= i <= items.len(),
            keys_view(out@) == string_items(items@.take(i as int)),
        decreases items.len() - i,
    {
        assert(items@.take(i + 1).drop_last() =~= items@.take(i as int));
        assert(items@.take(i + 1).last() == items@[i as int]);
        match &items[i] {
            Json::Str(s) => {
                let t = trim(s.as_str());
                if !t.as_str().is_empty() {
                    out.push(t);
                    assert(keys_view(out@) =~= string_items(items@.take(i as int)).push(t@));
                }
            },
            _ => {},
        }
        i = i + 1;
    }
    assert(items@.take(items.len() as int) =~= items@);
    out
}

/// The trimmed, non-empty strings of the array at `args[key]`.
pub fn string_array(args: &Json, key: &str) -> (r: Vec<String>)
    ensures
        keys_view(r@) == string_array_at(*args, key@),
{
    match args.get(key) {
        Some(Json::Array(items)) => string_items_of(items),
        _ => {
            assert(keys_view(Seq::<String>::empty()) =~= Seq::<Seq<char>>::empty());
            Vec::new()
        },
    }
}

// ---------------------------------------------------------------------------
// Evidence messages
// ---------------------------------------------------------------------------

/// Some message has the id.
pub open spec fn has_message(ms: Seq<InboundMessage>, id: Seq<char>) -> bool {
    exists|k: int| 0 <= k < ms.len() && (#[trigger] ms[k]).message_id@ == id
}

/// `k` is the first message with the id.
pub open spec fn is_first_match(ms: Seq<InboundMessage>, id: Seq<char>, k: int) -> bool {
    &&& 0 <= k < ms.len()
    &&& ms[k].message_id@ == id
    &&& forall|j: int| 0 <= j < k ==> (#[trigger] ms[j]).message_id@ != id
}

/// The index of the first message with the id.
pub open spec fn first_match(ms: Seq<InboundMessage>, id: Seq<char>) -> int {
    choose|k: int| is_first_match(ms, id, k)
}

pub proof fn lemma_first_match_unique(ms: Seq<InboundMessage>, id: Seq<char>, k: int)
    requires
        is_first_match(ms, id, k),
    ensures
        first_match(ms, id) == k,
{
    let c = first_match(ms, id);
    assert(is_first_match(ms, id, c));
    if c < k {
        assert(ms[c].message_id@ != id);
    } else if k < c {
        assert(ms[k].message_id@ != id);
    }
}

/// Finds the first message with the id.
pub fn find_message(ms: &Vec<InboundMessage>, id: &String) -> (r: Option<usize>)
    ensures
        match r {
            Some(k) => is_first_match(ms@, id@, k as int) && first_match(ms@, id@) == k,
            None => !has_message(ms@, id@),
        },
{
    let mut i: usize = 0;
    while i < ms.len()
        invariant
            0 <= i <= ms.len(),
            forall|j: int| 0 <= j < i ==> (#[trigger] ms@[j]).message_id@ != id@,
        decreases ms.len() - i,
    {
        if ms[i].message_id == *id {
            proof {
                lemma_first_match_unique(ms@, id@, i as int);
            }
            return Some(i);
        }
        i = i + 1;
    }
    None
}

/// The evidence a memory may cite: the session's own messages, then the
/// injected and read messages that were shown to the model.
pub open spec fn evidence_sources(
    own: Seq<InboundMessage>,
    injected: Seq<InboundMessage>,
    read: Seq<InboundMessage>,
) -> Seq<InboundMessage> {
    own + injected + read
}

fn append_messages(out: &mut Vec<InboundMessage>, ms: &Vec<InboundMessage>)
    ensures
        final(out)@.len() == old(out)@.len() + ms@.len(),
        forall|k: int| 0 <= k < old(out)@.len() ==> #[trigger] final(out)@[k] == old(out)@[k],
        forall|k: int|
            old(out)@.len() <= k < final(out)@.len() ==> same_message(
                #[trigger] final(out)@[k],
                ms@[k - old(out)@.len()],
            ),
{
    let ghost o = old(out)@;
    let mut i: usize = 0;
    while i < ms.len()
        invariant
            0 <= i <= ms.len(),
            out@.len() == o.len() + i,
            forall|k: int| 0 <= k < o.len() ==> #[trigger] out@[k] == o[k],
            forall|k: int| o.len() <= k < out@.len() ==> same_message(#[trigger] out@[k], ms@[k - o.len()]),
        decreases ms.len() - i,
    {
        out.push(ms[i].duplicate());
        i = i + 1;
    }
}

/// `evidence_source_messages`: the messages a new memory may cite.
pub fn evidence_source_messages(
    own: &Vec<InboundMessage>,
    injected: &Vec<InboundMessage>,
    read: &Vec<InboundMessage>,
) -> (r: Vec<InboundMessage>)
    ensures
        r@.len() == evidence_sources(own@, injected@, read@).len(),
        forall|k: int|
            0 <= k < r@.len() ==> same_message(#[trigger] r@[k], evidence_sources(own@, injected@, read@)[k]),
{
    let mut out: Vec<InboundMessage> = Vec::new();
    append_messages(&mut out, own);
    append_messages(&mut out, injected);
    append_messages(&mut out, read);
    let ghost all = evidence_sources(own@, injected@, read@);
    assert forall|k: int| 0 <= k < out@.len() implies same_message(#[trigger] out@[k], all[k]) by {
        if k < own@.len() {
            assert(all[k] == own@[k]);
        } else if k < own@.len() + injected@.len() {
            assert(all[k] == injected@[k - own@.len()]);
        } else {
            assert(all[k] == read@[k - own@.len() - injected@.len()]);
        }
    }
    out
}

/// The requested ids that no evidence message carries, in request order.
pub open spec fn missing_ids(ms: Seq<InboundMessage>, ids: Seq<Seq<char>>) -> Seq<Seq<char>>
    decreases ids.len(),
{
    if ids.len() == 0 {
        Seq::empty()
    } else {
        let rest = missing_ids(ms, ids.drop_last());
        if has_message(ms, ids.last()) {
            rest
        } else {
            rest.push(ids.last())
        }
    }
}

/// `selected_evidence_messages`: every message when no ids are given;
/// otherwise the first message with each id, in id order, or the ids that
/// none carries.
pub fn selected_evidence_messages(ms: &Vec<InboundMessage>, ids: &Vec<String>) -> (r: Result<
    Vec<InboundMessage>,
    Vec<String>,
>)
    ensures
        ids@.len() == 0 ==> r is Ok && r->Ok_0@.len() == ms@.len() && forall|k: int|
            0 <= k < ms@.len() ==> same_message(#[trigger] r->Ok_0@[k], ms@[k]),
        ids@.len() > 0 ==> (r is Ok <==> missing_ids(ms@, keys_view(ids@)).len() == 0),
        r is Err ==> keys_view(r->Err_0@) == missing_ids(ms@, keys_view(ids@)),
        ids@.len() > 0 && r is Ok ==> r->Ok_0@.len() == ids@.len() && forall|k: int|
            0 <= k < ids@.len() ==> same_message(
                #[trigger] r->Ok_0@[k],
                ms@[first_match(ms@, ids@[k]@)],
            ) && is_first_match(ms@, ids@[k]@, first_match(ms@, ids@[k]@)),
{
    if ids.len() == 0 {
        let mut all: Vec<InboundMessage> = Vec::new();
        append_messages(&mut all, ms);
        return Ok(all);
    }
    let mut selected: Vec<InboundMessage> = Vec::new();
    let mut missing: Vec<String> = Vec::new();
    let mut i: usize = 0;
    while i < ids.len()
        invariant
            0 <= i <= ids.len(),
            keys_view(missing@) == missing_ids(ms@, keys_view(ids@.take(i as int))),
            missing@.len() == 0 ==> selected@.len() == i && forall|k: int|
                0 <= k < i ==> same_message(#[trigger] selected@[k], ms@[first_match(ms@, ids@[k]@)])
                    && is_first_match(ms@, ids@[k]@, first_match(ms@, ids@[k]@)),
        decreases ids.len() - i,
    {
        assert(keys_view(ids@.take(i + 1)).drop_last() =~= keys_view(ids@.take(i as int)));
        assert(keys_view(ids@.take(i + 1)).last() == ids@[i as int]@);
        match find_message(ms, &ids[i]) {
            Some(k) => {
                selected.push(ms[k].duplicate());
            },
            None => {
                missing.push(ids[i].clone());
                assert(keys_view(missing@) =~= missing_ids(ms@, keys_view(ids@.take(i as int))).push(
                    ids@[i as int]@,
                ));
            },
        }
        i = i + 1;
    }
    assert(ids@.take(ids.len() as int) =~= ids@);
    if missing.len() == 0 {
        Ok(selected)
    } else {
        Err(missing)
    }
}

/// The message a memory is sourced from: the first message carrying the
/// first cited id that any message carries, else the first message.
pub open spec fn source_index(ms: Seq<InboundMessage>, ids: Seq<Seq<char>>) -> Option<int>
    decreases ids.len(),
{
    if ids.len() == 0 {
        if ms.len() > 0 {
            Some(0)
        } else {
            None
        }
    } else if has_message(ms, ids[0]) {
        Some(first_match(ms, ids[0]))
    } else {
        source_index(ms, ids.drop_first())
    }
}

/// `source_message_for_evidence`, as an index into the messages.
pub fn source_message_for_evidence(ms: &Vec<InboundMessage>, ids: &Vec<String>) -> (r: Option<usize>)
    ensures
        match r {
            Some(k) => source_index(ms@, keys_view(ids@)) == Some(k as int) && k < ms@.len(),
            None => source_index(ms@, keys_view(ids@)) is None,
        },
{
    let mut i: usize = 0;
    assert(keys_view(ids@).skip(0) =~= keys_view(ids@));
    while i < ids.len()
        invariant
            0 <= i <= ids.len(),
            source_index(ms@, keys_view(ids@)) == source_index(ms@, keys_view(ids@).skip(i as int)),
        decreases ids.len() - i,
    {
        assert(keys_view(ids@).skip(i as int).drop_first() =~= keys_view(ids@).skip(i + 1));
        assert(keys_view(ids@).skip(i as int)[0] == ids@[i as int]@);
        match find_message(ms, &ids[i]) {
            Some(k) => {
                return Some(k);
            },
            None => {},
        }
        i = i + 1;
    }
    assert(keys_view(ids@).skip(i as int).len() == 0);
    if ms.len() > 0 {
        Some(0)
    } else {
        None
    }
}

/// The non-empty message ids of the messages, in order.
pub open spec fn message_ids_of(ms: Seq<InboundMessage>) -> Seq<Seq<char>>
    decreases ms.len(),
{
    if ms.len() == 0 {
        Seq::empty()
    } else if ms.last().message_id@.len() > 0 {
        message_ids_of(ms.drop_last()).push(ms.last().message_id@)
    } else {
        message_ids_of(ms.drop_last())
    }
}

/// The profiles of the messages that have one, in order.
pub open spec fn profiles_of(ms: Seq<InboundMessage>) -> Seq<Seq<char>>
    decreases ms.len(),
{
    if ms.len() == 0 {
        Seq::empty()
    } else {
        match ms.last().profile {
            Some(p) => profiles_of(ms.drop_last()).push(p@),
            None => profiles_of(ms.drop_last()),
        }
    }
}

/// The identities of the messages that have one, in order.
pub open spec fn identities_of(ms: Seq<InboundMessage>) -> Seq<Seq<char>>
    decreases ms.len(),
{
    if ms.len() == 0 {
        Seq::empty()
    } else {
        match ms.last().identity {
            Some(p) => identities_of(ms.drop_last()).push(p@),
            None => identities_of(ms.drop_last()),
        }
    }
}

/// Which of the three per-message lists to gather.
pub enum MessageField {
    MessageId,
    Profile,
    Identity,
}

pub open spec fn field_list(ms: Seq<InboundMessage>, f: MessageField) -> Seq<Seq<char>> {
    match f {
        MessageField::MessageId => message_ids_of(ms),
        MessageField::Profile => profiles_of(ms),
        MessageField::Identity => identities_of(ms),
    }
}

/// Gathers message ids, profiles or identities of the messages.
pub fn gather(ms: &Vec<InboundMessage>, f: MessageField) -> (r: Vec<String>)
    ensures
        keys_view(r@) == field_list(ms@, f),
{
    let mut out: Vec<String> = Vec::new();
    let mut i: usize = 0;
    while i < ms.len()
        invariant
            0 <= i <= ms.len(),
            keys_view(out@) == field_list(ms@.take(i as int), f),
        decreases ms.len() - i,
    {
        assert(ms@.take(i + 1).drop_last() =~= ms@.take(i as int));
        assert(ms@.take(i + 1).last() == ms@[i as int]);
        let m = &ms[i];
        match f {
            MessageField::MessageId => {
                if !m.message_id.as_str().is_empty() {
                    out.push(m.message_id.clone());
                    assert(keys_view(out@) =~= field_list(ms@.take(i as int), f).push(m.message_id@));
                }
            },
            MessageField::Profile => {
                match &m.profile {
                    Some(p) => {
                        out.push(p.clone());
                        assert(keys_view(out@) =~= field_list(ms@.take(i as int), f).push(p@));
                    },
                    None => {},
                }
            },
            MessageField::Identity => {
                match &m.identity {
                    Some(p) => {
                        out.push(p.clone());
                        assert(keys_view(out@) =~= field_list(ms@.take(i as int), f).push(p@));
                    },
                    None => {},
                }
            },
        }
        i = i + 1;
    }
    assert(ms@.take(ms.len() as int) =~= ms@);
    out
}

/// Some requested id lies outside a non-empty allowed list.
pub open spec fn outside_allowed(allowed: Seq<Seq<char>>, ids: Seq<Seq<char>>) -> bool {
    allowed.len() > 0 && exists|k: int| 0 <= k < ids.len() && !allowed.contains(#[trigger] ids[k])
}

fn any_outside(allowed: &Vec<String>, ids: &Vec<String>) -> (r: bool)
    ensures
        r == outside_allowed(keys_view(allowed@), keys_view(ids@)),
{
    if allowed.len() == 0 {
        return false;
    }
    let mut i: usize = 0;
    while i < ids.len()
        invariant
            0 <= i <= ids.len(),
            allowed@.len() > 0,
            forall|k: int| 0 <= k < i ==> keys_view(allowed@).contains(#[trigger] keys_view(ids@)[k]),
        decreases ids.len() - i,
    {
        if !crate::session::holds_key(allowed, &ids[i]) {
            assert(keys_view(ids@)[i as int] == ids@[i as int]@);
            assert(!keys_view(allowed@).contains(keys_view(ids@)[i as int]));
            assert(keys_view(allowed@).len() == allowed@.len());
            return true;
        }
        assert(keys_view(ids@)[i as int] == ids@[i as int]@);
        i = i + 1;
    }
    false
}

/// The evidence messages a memory rests on: all of them when no ids are
/// cited, else the first message with each cited id.
pub open spec fn selected_spec(ms: Seq<InboundMessage>, ids: Seq<Seq<char>>) -> Seq<InboundMessage> {
    if ids.len() == 0 {
        ms
    } else {
        Seq::new(ids.len(), |k: int| ms[first_match(ms, ids[k])])
    }
}

/// Two lists of messages agree message by message.
pub open spec fn same_messages(a: Seq<InboundMessage>, b: Seq<InboundMessage>) -> bool {
    a.len() == b.len() && forall|k: int| 0 <= k < a.len() ==> same_message(#[trigger] a[k], b[k])
}

proof fn lemma_field_lists_agree(a: Seq<InboundMessage>, b: Seq<InboundMessage>)
    requires
        same_messages(a, b),
    ensures
        message_ids_of(a) == message_ids_of(b),
        profiles_of(a) == profiles_of(b),
        identities_of(a) == identities_of(b),
    decreases a.len(),
{
    if a.len() > 0 {
        assert(same_message(a[a.len() - 1], b[b.len() - 1]));
        assert(same_messages(a.drop_last(), b.drop_last())) by {
            assert forall|k: int| 0 <= k < a.drop_last().len() implies same_message(
                #[trigger] a.drop_last()[k],
                b.drop_last()[k],
            ) by {
                assert(same_message(a[k], b[k]));
            }
        }
        lemma_field_lists_agree(a.drop_last(), b.drop_last());
    }
}

proof fn lemma_source_index_agrees(a: Seq<InboundMessage>, b: Seq<InboundMessage>, ids: Seq<Seq<char>>)
    requires
        same_messages(a, b),
    ensures
        source_index(a, ids) == source_index(b, ids),
    decreases ids.len(),
{
    if ids.len() > 0 {
        let id = ids[0];
        if has_message(a, id) {
            let k = choose|k: int| 0 <= k < a.len() && (#[trigger] a[k]).message_id@ == id;
            assert(same_message(a[k], b[k]));
            assert(b[k].message_id@ == id);
        }
        if has_message(b, id) {
            let k = choose|k: int| 0 <= k < b.len() && (#[trigger] b[k]).message_id@ == id;
            assert(same_message(a[k], b[k]));
            assert(a[k].message_id@ == id);
            let fb = first_match(b, id);
            assert(is_first_match(b, id, fb)) by {
                lemma_has_first_match(b, id);
            }
            assert(is_first_match(a, id, fb)) by {
                assert(same_message(a[fb], b[fb]));
                assert forall|j: int| 0 <= j < fb implies (#[trigger] a[j]).message_id@ != id by {
                    assert(same_message(a[j], b[j]));
                    assert(b[j].message_id@ != id);
                }
            }
            lemma_first_match_unique(a, id, fb);
        }
        lemma_source_index_agrees(a, b, ids.drop_first());
    }
}

/// Where there is a message with the id, there is a first one.
pub proof fn lemma_has_first_match(ms: Seq<InboundMessage>, id: Seq<char>)
    requires
        has_message(ms, id),
    ensures
        is_first_match(ms, id, first_match(ms, id)),
    decreases ms.len(),
{
    if ms[0].message_id@ == id {
        assert(is_first_match(ms, id, 0));
    } else {
        let rest = ms.drop_first();
        let k = choose|k: int| 0 <= k < ms.len() && (#[trigger] ms[k]).message_id@ == id;
        assert(rest[k - 1] == ms[k]);
        lemma_has_first_match(rest, id);
        let f = first_match(rest, id);
        assert(is_first_match(ms, id, f + 1)) by {
            assert(ms[f + 1] == rest[f]);
            assert forall|j: int| 0 <= j < f + 1 implies (#[trigger] ms[j]).message_id@ != id by {
                if j > 0 {
                    assert(ms[j] == rest[j - 1]);
                }
            }
        }
    }
}

/// A subject the new memory is about. An actor subject is the actor itself
/// (relation "self"); the others are the given identity or profile
/// (relation "about").
pub enum PlannedSubject {
    Actor,
    Identity(String),
    Profile(String),
}

/// The kind and id of a planned subject; the actor has no id of its own here.
pub open spec fn planned_view(p: PlannedSubject) -> (crate::model::MemorySubjectType, Seq<char>) {
    match p {
        PlannedSubject::Actor => (crate::model::MemorySubjectType::Actor, Seq::empty()),
        PlannedSubject::Identity(id) => (crate::model::MemorySubjectType::Identity, id@),
        PlannedSubject::Profile(id) => (crate::model::MemorySubjectType::Profile, id@),
    }
}

pub open spec fn planned_views(v: Seq<PlannedSubject>) -> Seq<(crate::model::MemorySubjectType, Seq<char>)> {
    v.map_values(|p: PlannedSubject| planned_view(p))
}

pub open spec fn tagged(
    t: crate::model::MemorySubjectType,
    ids: Seq<Seq<char>>,
) -> Seq<(crate::model::MemorySubjectType, Seq<char>)> {
    ids.map_values(|x: Seq<char>| (t, x))
}

/// The subjects of a new memory: the actor alone, or the cited identities
/// then profiles; with none, the source message's profile, else its identity.
pub open spec fn planned_subjects(
    actor: bool,
    identities: Seq<Seq<char>>,
    profiles: Seq<Seq<char>>,
    source: Option<InboundMessage>,
) -> Seq<(crate::model::MemorySubjectType, Seq<char>)> {
    let explicit = if actor {
        seq![(crate::model::MemorySubjectType::Actor, Seq::<char>::empty())]
    } else {
        tagged(crate::model::MemorySubjectType::Identity, identities) + tagged(
            crate::model::MemorySubjectType::Profile,
            profiles,
        )
    };
    if explicit.len() > 0 {
        explicit
    } else {
        match source {
            Some(m) => match m.profile {
                Some(p) => seq![(crate::model::MemorySubjectType::Profile, p@)],
                None => match m.identity {
                    Some(i) => seq![(crate::model::MemorySubjectType::Identity, i@)],
                    None => Seq::empty(),
                },
            },
            None => Seq::empty(),
        }
    }
}

/// Why a memory is refused.
pub enum FormError {
    /// Cited evidence ids that no message of the action carries.
    MissingEvidence(Vec<String>),
    /// Person subjects are only reached by promotion.
    PersonSubjects,
    /// An actor self-memory named other subjects too.
    ActorMixed,
    /// A cited profile is not among the evidence messages' profiles.
    ProfileOutside,
    /// A cited identity is not among the evidence messages' identities.
    IdentityOutside,
}

/// The conversation a memory is sourced from, with the source message's
/// owners and the first cited message id.
pub struct ConversationSource {
    pub conversation: String,
    pub identity: Option<String>,
    pub profile: Option<String>,
    pub person: Option<String>,
    pub message_id: Option<String>,
}

/// What a new memory is, before it is stored.
pub struct FormPlan {
    pub subjects: Vec<PlannedSubject>,
    pub evidence_message_ids: Vec<String>,
    /// `None` for a memory with no conversation behind it (a reflection).
    pub source: Option<ConversationSource>,
}

pub open spec fn opt_view(o: Option<String>) -> Option<Seq<char>> {
    match o {
        Some(s) => Some(s@),
        None => None,
    }
}

/// The check that decides whether a memory may be formed, in the order the
/// checks run.
pub enum FormCheck {
    Passes,
    MissingEvidence,
    PersonSubjects,
    ActorMixed,
    ProfileOutside,
    IdentityOutside,
}

pub open spec fn cited_ids(args: Json) -> Seq<Seq<char>> {
    string_array_at(args, "evidence_message_ids"@)
}

pub open spec fn cited_profiles(args: Json) -> Seq<Seq<char>> {
    string_array_at(args, "subject_profile_ids"@)
}

pub open spec fn cited_identities(args: Json) -> Seq<Seq<char>> {
    string_array_at(args, "subject_identity_ids"@)
}

pub open spec fn cited_people(args: Json) -> Seq<Seq<char>> {
    string_array_at(args, "subject_person_ids"@)
}

pub open spec fn actor_memory(args: Json) -> bool {
    args.flag_at("subject_actor"@)
}

/// Which check, if any, refuses the memory.
pub open spec fn form_check(args: Json, ms: Seq<InboundMessage>) -> FormCheck {
    let cited = cited_ids(args);
    let sel = selected_spec(ms, cited);
    if cited.len() > 0 && missing_ids(ms, cited).len() > 0 {
        FormCheck::MissingEvidence
    } else if cited_people(args).len() > 0 {
        FormCheck::PersonSubjects
    } else if actor_memory(args) && (cited_profiles(args).len() > 0 || cited_identities(args).len() > 0) {
        FormCheck::ActorMixed
    } else if outside_allowed(profiles_of(sel), cited_profiles(args)) {
        FormCheck::ProfileOutside
    } else if outside_allowed(identities_of(sel), cited_identities(args)) {
        FormCheck::IdentityOutside
    } else {
        FormCheck::Passes
    }
}

/// The evidence ids a memory records: the cited ones, else those of its
/// evidence messages.
pub open spec fn recorded_ids(args: Json, ms: Seq<InboundMessage>) -> Seq<Seq<char>> {
    if cited_ids(args).len() > 0 {
        cited_ids(args)
    } else {
        message_ids_of(selected_spec(ms, cited_ids(args)))
    }
}

/// The source message of a memory, if any.
pub open spec fn source_message(args: Json, ms: Seq<InboundMessage>) -> Option<InboundMessage> {
    let sel = selected_spec(ms, cited_ids(args));
    match source_index(sel, recorded_ids(args, ms)) {
        Some(k) => Some(sel[k]),
        None => None,
    }
}

/// The conversation source of a memory, as plain values:
/// `(conversation, identity, profile, person, message id)`.
pub open spec fn source_spec(args: Json, ms: Seq<InboundMessage>, fallback: Option<Seq<char>>) -> Option<
    (Seq<char>, Option<Seq<char>>, Option<Seq<char>>, Option<Seq<char>>, Option<Seq<char>>),
> {
    let ids = recorded_ids(args, ms);
    let src = source_message(args, ms);
    let conversation = match src {
        Some(m) => Some(m.conversation@),
        None => fallback,
    };
    let message_id = if ids.len() > 0 {
        Some(ids[0])
    } else {
        match src {
            Some(m) => Some(m.message_id@),
            None => None,
        }
    };
    match conversation {
        Some(c) => match src {
            Some(m) => Some((c, opt_view(m.identity), opt_view(m.profile), opt_view(m.person), message_id)),
            None => Some((c, None, None, None, message_id)),
        },
        None => None,
    }
}

pub open spec fn source_view(s: Option<ConversationSource>) -> Option<
    (Seq<char>, Option<Seq<char>>, Option<Seq<char>>, Option<Seq<char>>, Option<Seq<char>>),
> {
    match s {
        Some(c) => Some(
            (c.conversation@, opt_view(c.identity), opt_view(c.profile), opt_view(c.person), opt_view(c.message_id)),
        ),
        None => None,
    }
}

/// The session's conversation, else that of its first message; a memory
/// that no message sources falls back to it.
pub fn current_conversation(conversation: &Option<String>, own: &Vec<InboundMessage>) -> (r: Option<String>)
    ensures
        opt_view(r) == match conversation {
            Some(c) => Some(c@),
            None => if own@.len() > 0 {
                Some(own@[0].conversation@)
            } else {
                None
            },
        },
{
    match conversation {
        Some(c) => Some(c.clone()),
        None => if own.len() > 0 {
            Some(own[0].conversation.clone())
        } else {
            None
        },
    }
}

/// Plans a new memory from the tool arguments and the evidence the action
/// may cite (`evidence_source_messages`): the checks of `form_memory`, its
/// subjects, evidence ids and source. Content, numbers and policies are
/// applied by the caller.
pub fn plan_memory(args: &Json, ms: &Vec<InboundMessage>, fallback: Option<String>) -> (r: Result<
    FormPlan,
    FormError,
>)
    ensures
        match r {
            Err(FormError::MissingEvidence(missing)) => form_check(*args, ms@) is MissingEvidence
                && keys_view(missing@) == missing_ids(ms@, cited_ids(*args)),
            Err(FormError::PersonSubjects) => form_check(*args, ms@) is PersonSubjects,
            Err(FormError::ActorMixed) => form_check(*args, ms@) is ActorMixed,
            Err(FormError::ProfileOutside) => form_check(*args, ms@) is ProfileOutside,
            Err(FormError::IdentityOutside) => form_check(*args, ms@) is IdentityOutside,
            Ok(plan) => {
                &&& form_check(*args, ms@) is Passes
                &&& keys_view(plan.evidence_message_ids@) == recorded_ids(*args, ms@)
                &&& planned_views(plan.subjects@) == planned_subjects(
                    actor_memory(*args),
                    cited_identities(*args),
                    cited_profiles(*args),
                    source_message(*args, ms@),
                )
                &&& source_view(plan.source) == source_spec(*args, ms@, opt_view(fallback))
            },
        },
{
    let cited = string_array(args, "evidence_message_ids");
    let selected = match selected_evidence_messages(ms, &cited) {
        Ok(sel) => sel,
        Err(missing) => {
            return Err(FormError::MissingEvidence(missing));
        },
    };
    let ghost sel_spec = selected_spec(ms@, keys_view(cited@));
    proof {
        assert(same_messages(selected@, sel_spec)) by {
            if cited@.len() > 0 {
                assert forall|k: int| 0 <= k < selected@.len() implies same_message(
                    #[trigger] selected@[k],
                    sel_spec[k],
                ) by {
                    assert(keys_view(cited@)[k] == cited@[k]@);
                }
            }
        }
        lemma_field_lists_agree(selected@, sel_spec);
    }
    let people = string_array(args, "subject_person_ids");
    if people.len() > 0 {
        return Err(FormError::PersonSubjects);
    }
    let actor = args.flag("subject_actor");
    let profiles = string_array(args, "subject_profile_ids");
    let identities = string_array(args, "subject_identity_ids");
    if actor && (profiles.len() > 0 || identities.len() > 0) {
        return Err(FormError::ActorMixed);
    }
    let evidence_ids = if cited.len() > 0 {
        cited
    } else {
        gather(&selected, MessageField::MessageId)
    };
    let source = source_message_for_evidence(&selected, &evidence_ids);
    proof {
        lemma_source_index_agrees(selected@, sel_spec, keys_view(evidence_ids@));
    }
    let allowed_profiles = gather(&selected, MessageField::Profile);
    if any_outside(&allowed_profiles, &profiles) {
        return Err(FormError::ProfileOutside);
    }
    let allowed_identities = gather(&selected, MessageField::Identity);
    if any_outside(&allowed_identities, &identities) {
        return Err(FormError::IdentityOutside);
    }
    let mut subjects: Vec<PlannedSubject> = Vec::new();
    if actor {
        subjects.push(PlannedSubject::Actor);
    } else {
        let mut i: usize = 0;
        while i < identities.len()
            invariant
                0 <= i <= identities.len(),
                planned_views(subjects@) == tagged(
                    crate::model::MemorySubjectType::Identity,
                    keys_view(identities@).take(i as int),
                ),
            decreases identities.len() - i,
        {
            let id = identities[i].clone();
            let ghost before = subjects@;
            subjects.push(PlannedSubject::Identity(id));
            let ghost want = tagged(crate::model::MemorySubjectType::Identity, keys_view(identities@).take(i + 1));
            assert(keys_view(identities@).len() == identities@.len());
            assert(planned_views(before).len() == before.len());
            assert(keys_view(identities@).take(i as int).len() == i);
            assert(planned_views(subjects@).len() == want.len());
            assert forall|k: int| 0 <= k < want.len() implies planned_views(subjects@)[k] == want[k] by {
                if k < i {
                    assert(subjects@[k] == before[k]);
                    assert(planned_views(before)[k] == planned_view(before[k]));
                } else {
                    assert(keys_view(identities@)[k] == identities@[k]@);
                }
            }
            assert(planned_views(subjects@) =~= want);
            i = i + 1;
        }
        assert(keys_view(identities@).take(identities.len() as int) =~= keys_view(identities@));
        let mut j: usize = 0;
        while j < profiles.len()
            invariant
                0 <= j <= profiles.len(),
                planned_views(subjects@) == tagged(crate::model::MemorySubjectType::Identity, keys_view(identities@))
                    + tagged(crate::model::MemorySubjectType::Profile, keys_view(profiles@).take(j as int)),
            decreases profiles.len() - j,
        {
            let id = profiles[j].clone();
            let ghost before = subjects@;
            subjects.push(PlannedSubject::Profile(id));
            let ghost front = tagged(crate::model::MemorySubjectType::Identity, keys_view(identities@));
            let ghost want = front + tagged(crate::model::MemorySubjectType::Profile, keys_view(profiles@).take(j + 1));
            assert(keys_view(profiles@).len() == profiles@.len());
            assert(planned_views(before).len() == before.len());
            assert(keys_view(profiles@).take(j as int).len() == j);
            assert(planned_views(subjects@).len() == want.len());
            assert forall|k: int| 0 <= k < want.len() implies planned_views(subjects@)[k] == want[k] by {
                if k < before.len() {
                    assert(subjects@[k] == before[k]);
                    assert(planned_views(before)[k] == planned_view(before[k]));
                } else {
                    assert(keys_view(profiles@)[j as int] == profiles@[j as int]@);
                }
            }
            assert(planned_views(subjects@) =~= want);
            j = j + 1;
        }
        assert(keys_view(profiles@).take(profiles.len() as int) =~= keys_view(profiles@));
    }
    if subjects.len() == 0 {
        match source {
            Some(k) => {
                let m = &selected[k];
                assert(same_message(selected@[k as int], sel_spec[k as int]));
                match &m.profile {
                    Some(p) => subjects.push(PlannedSubject::Profile(p.clone())),
                    None => match &m.identity {
                        Some(i) => subjects.push(PlannedSubject::Identity(i.clone())),
                        None => {},
                    },
                }
            },
            None => {},
        }
    }
    let conversation_source = match source {
        Some(k) => {
            let m = &selected[k];
            assert(same_message(selected@[k as int], sel_spec[k as int]));
            let message_id = if evidence_ids.len() > 0 {
                Some(evidence_ids[0].clone())
            } else {
                Some(m.message_id.clone())
            };
            Some(
                ConversationSource {
                    conversation: m.conversation.clone(),
                    identity: crate::model::copy_opt(&m.identity),
                    profile: crate::model::copy_opt(&m.profile),
                    person: crate::model::copy_opt(&m.person),
                    message_id,
                },
            )
        },
        None => match fallback {
            Some(c) => {
                let message_id = if evidence_ids.len() > 0 {
                    Some(evidence_ids[0].clone())
                } else {
                    None
                };
                Some(
                    ConversationSource {
                        conversation: c,
                        identity: None,
                        profile: None,
                        person: None,
                        message_id,
                    },
                )
            },
            None => None,
        },
    };
    assert(keys_view(evidence_ids@).len() == evidence_ids@.len());
    proof {
        if evidence_ids@.len() > 0 {
            assert(keys_view(evidence_ids@)[0] == evidence_ids@[0]@);
        }
    }
    Ok(FormPlan { subjects, evidence_message_ids: evidence_ids, source: conversation_source })
}

impl FormError {
    /// The text of the refusal, as the tool reports it.
    pub open spec fn spec_message(self) -> Seq<char> {
        match self {
            FormError::MissingEvidence(ids) => "Evidence message ids are not available in the current action: "@
                + joined(keys_view(ids@), ", "@),
            FormError::PersonSubjects => "form_memory no longer writes directly to person subjects. Save to the current profile first, then use promote_profile_memory_to_person after verification."@,
            FormError::ActorMixed => "Actor self memories cannot be mixed with profile, identity, or person subjects."@,
            FormError::ProfileOutside => "Refusing to save memory to a profile outside the current action messages."@,
            FormError::IdentityOutside => "Refusing to save memory to an identity outside the current action messages."@,
        }
    }

    pub fn message(&self) -> (r: String)
        ensures
            r@ == self.spec_message(),
    {
        match self {
            FormError::MissingEvidence(ids) => {
                let mut out = owned("Evidence message ids are not available in the current action: ");
                let list = join(ids, ", ");
                append_str(&mut out, list.as_str());
                proof {
                    assert(keys_view(ids@) =~= ids@.map_values(|s: String| s@));
                }
                out
            },
            FormError::PersonSubjects => owned(
                "form_memory no longer writes directly to person subjects. Save to the current profile first, then use promote_profile_memory_to_person after verification.",
            ),
            FormError::ActorMixed => owned(
                "Actor self memories cannot be mixed with profile, identity, or person subjects.",
            ),
            FormError::ProfileOutside => owned(
                "Refusing to save memory to a profile outside the current action messages.",
            ),
            FormError::IdentityOutside => owned(
                "Refusing to save memory to an identity outside the current action messages.",
            ),
        }
    }
}

// ---------------------------------------------------------------------------
// Stored content
// ---------------------------------------------------------------------------

impl MemorySubjectType {
    pub open spec fn spec_as_str(self) -> Seq<char> {
        match self {
            MemorySubjectType::Identity => "identity"@,
            MemorySubjectType::Profile => "profile"@,
            MemorySubjectType::Person => "person"@,
            MemorySubjectType::Actor => "actor"@,
        }
    }

    /// The subject type as stored.
    pub fn as_str(&self) -> (r: &'static str)
        ensures
            r@ == self.spec_as_str(),
    {
        match self {
            MemorySubjectType::Identity => "identity",
            MemorySubjectType::Profile => "profile",
            MemorySubjectType::Person => "person",
            MemorySubjectType::Actor => "actor",
        }
    }
}

/// The header a stored memory starts with when it names its subjects.
pub open spec fn subjects_header() -> Seq<char> {
    "Subjects involved:\n"@
}

/// One line naming a subject; a person with a display name shows it.
pub open spec fn subject_line(s: MemorySubject, name: Option<String>) -> Seq<char> {
    let base = "- "@ + s.subject_type.spec_as_str() + " "@ + s.subject_id@;
    match name {
        Some(n) => if s.subject_type == MemorySubjectType::Person && squashed(n@).len() > 0 {
            base + " (display name: "@ + squashed(n@) + ")"@
        } else {
            base
        },
        None => base,
    }
}

pub open spec fn subject_lines(subjects: Seq<MemorySubject>, names: Seq<Option<String>>) -> Seq<Seq<char>> {
    Seq::new(subjects.len(), |k: int| subject_line(subjects[k], names[k]))
}

/// The stored content of a memory about the subjects: a header naming each
/// subject, then the memory; unchanged without subjects or when it already
/// has the header.
pub open spec fn canonical_content(
    content: Seq<char>,
    subjects: Seq<MemorySubject>,
    names: Seq<Option<String>>,
) -> Seq<char> {
    if subjects.len() == 0 || is_prefix(subjects_header(), content) {
        content
    } else {
        joined(
            seq!["Subjects involved:"@] + subject_lines(subjects, names) + seq!["Memory: "@ + content],
            "\n"@,
        )
    }
}

/// `canonicalize_content_for_subjects`; `person_names[k]` is the stored name
/// of subject `k` when it is a person.
pub fn canonicalize_content_for_subjects(
    content: &str,
    subjects: &Vec<MemorySubject>,
    person_names: &Vec<Option<String>>,
) -> (r: String)
    requires
        person_names@.len() == subjects@.len(),
    ensures
        r@ == canonical_content(content@, subjects@, person_names@),
{
    if subjects.len() == 0 || starts_with(content, "Subjects involved:\n") {
        proof {
            reveal_strlit("Subjects involved:\n");
        }
        return owned(content);
    }
    proof {
        reveal_strlit("Subjects involved:\n");
    }
    let mut lines: Vec<String> = Vec::new();
    lines.push(owned("Subjects involved:"));
    let mut i: usize = 0;
    while i < subjects.len()
        invariant
            0 <= i <= subjects.len(),
            person_names@.len() == subjects@.len(),
            keys_view(lines@) == seq!["Subjects involved:"@] + subject_lines(subjects@, person_names@).take(i as int),
        decreases subjects.len() - i,
    {
        let s = &subjects[i];
        let mut line = owned("- ");
        append_str(&mut line, s.subject_type.as_str());
        append_str(&mut line, " ");
        append_str(&mut line, s.subject_id.as_str());
        match &person_names[i] {
            Some(n) => {
                if s.subject_type == MemorySubjectType::Person {
                    let clean = clean_display_name(n.as_str());
                    if !clean.as_str().is_empty() {
                        append_str(&mut line, " (display name: ");
                        append_str(&mut line, clean.as_str());
                        append_str(&mut line, ")");
                    }
                }
            },
            None => {},
        }
        assert(line@ =~= subject_line(subjects@[i as int], person_names@[i as int]));
        let ghost before = lines@;
        let ghost lv = line@;
        lines.push(line);
        assert(keys_view(lines@) =~= keys_view(before).push(lv));
        assert(subject_lines(subjects@, person_names@).take(i + 1) =~= subject_lines(
            subjects@,
            person_names@,
        ).take(i as int).push(lv));
        assert(keys_view(lines@) =~= seq!["Subjects involved:"@] + subject_lines(subjects@, person_names@).take(
            i + 1,
        ));
        i = i + 1;
    }
    let mut last = owned("Memory: ");
    append_str(&mut last, content);
    let ghost before = lines@;
    let ghost lv = last@;
    lines.push(last);
    assert(keys_view(lines@) =~= keys_view(before).push(lv));
    assert(subject_lines(subjects@, person_names@).take(subjects.len() as int) =~= subject_lines(
        subjects@,
        person_names@,
    ));
    let ghost all = seq!["Subjects involved:"@] + subject_lines(subjects@, person_names@) + seq![
        "Memory: "@ + content@,
    ];
    assert(keys_view(lines@) =~= all);
    let r = join(&lines, "\n");
    assert(keys_view(lines@) =~= lines@.map_values(|s: String| s@));
    assert(!is_prefix(subjects_header(), content@));
    r
}

/// The memory itself, without a subjects header (`memory_body`): what follows
/// the last "\nMemory: ", else the whole content.
pub open spec fn body_of(content: Seq<char>) -> Seq<char> {
    match last_occurrence(content, "\nMemory: "@, content.len() + 1int) {
        Some(i) => content.skip(i + 9),
        None => content,
    }
}

pub fn memory_body(content: &str) -> (r: String)
    ensures
        r@ == body_of(content@),
{
    let cs = chars_of(content);
    let marker = chars_of("\nMemory: ");
    proof {
        reveal_strlit("\nMemory: ");
    }
    match rfind(&cs, &marker) {
        Some(i) => {
            assert(i + 9 <= cs.len()) by {
                assert(occurs_at(cs@, marker@, i as int)) by {
                    lemma_last_occurrence_occurs(cs@, marker@, cs@.len() + 1int);
                }
            }
            string_of_range(&cs, i + 9, cs.len())
        },
        None => owned(content),
    }
}

pub proof fn lemma_last_occurrence_occurs(s: Seq<char>, p: Seq<char>, n: int)
    ensures
        last_occurrence(s, p, n) matches Some(i) ==> occurs_at(s, p, i),
    decreases n,
{
    if n > 0 && !occurs_at(s, p, n - 1) {
        lemma_last_occurrence_occurs(s, p, n - 1);
    }
}

proof fn lemma_no_occurrence_none(s: Seq<char>, p: Seq<char>, n: int)
    requires
        forall|i: int| !occurs_at(s, p, i),
    ensures
        last_occurrence(s, p, n) is None,
    decreases n,
{
    if n > 0 {
        lemma_no_occurrence_none(s, p, n - 1);
    }
}

proof fn lemma_last_occurrence_at(s: Seq<char>, p: Seq<char>, at: int, n: int)
    requires
        occurs_at(s, p, at),
        at < n,
        forall|i: int| at < i < n ==> !occurs_at(s, p, i),
    ensures
        last_occurrence(s, p, n) == Some(at),
    decreases n,
{
    if n - 1 != at {
        lemma_last_occurrence_at(s, p, at, n - 1);
    }
}

/// Reading back a canonical memory gives the memory itself: the body of the
/// content stored for it is the content, as long as the content does not
/// itself hold the "\nMemory: " marker.
#[verifier::spinoff_prover]
#[verifier::rlimit(50)]
pub proof fn lemma_body_of_canonical(content: Seq<char>, subjects: Seq<MemorySubject>, names: Seq<Option<String>>)
    requires
        !contains_seq(content, "\nMemory: "@),
    ensures
        body_of(canonical_content(content, subjects, names)) == content,
{
    let m = "\nMemory: "@;
    reveal_strlit("\nMemory: ");
    reveal_strlit("Memory: ");
    reveal_strlit("\n");
    assert(m.len() == 9);
    if subjects.len() == 0 || is_prefix(subjects_header(), content) {
        assert forall|i: int| !occurs_at(content, m, i) by {
            if occurs_at(content, m, i) {
                assert(contains_seq(content, m));
            }
        }
        lemma_no_occurrence_none(content, m, content.len() + 1int);
    } else {
        let items = seq!["Subjects involved:"@] + subject_lines(subjects, names) + seq!["Memory: "@ + content];
        let x = joined(items.drop_last(), "\n"@);
        assert(items.len() >= 2);
        assert(items.last() == "Memory: "@ + content);
        let full = joined(items, "\n"@);
        assert(full == x + "\n"@ + ("Memory: "@ + content));
        assert("\n"@ + "Memory: "@ =~= m);
        assert(full =~= x + m + content);
        let a = x.len() as int;
        assert(full.subrange(a, a + 9) =~= m);
        assert forall|i: int| a < i < full.len() + 1 implies !occurs_at(full, m, i) by {
            if occurs_at(full, m, i) {
                assert(full.subrange(i, i + 9)[0] == m[0]);
                assert(full[i] == m[0]);
                if i < a + 9 {
                    assert(full[i] == m[i - a]);
                    assert(m[i - a] != '\n');
                } else {
                    let j = i - a - 9;
                    assert(content.subrange(j, j + 9) =~= full.subrange(i, i + 9));
                    assert(occurs_at(content, m, j));
                    assert(contains_seq(content, m));
                }
            }
        }
        lemma_last_occurrence_at(full, m, a, full.len() + 1int);
        assert(full.skip(a + 9) =~= content);
    }
}

// ---------------------------------------------------------------------------
// Subjects and their relation to the current speaker
// ---------------------------------------------------------------------------

/// The subject list names a subject of that type and id.
pub open spec fn names_subject(subjects: Seq<MemorySubject>, t: MemorySubjectType, id: Seq<char>) -> bool {
    exists|k: int| 0 <= k < subjects.len() && (#[trigger] subjects[k]).subject_type == t && subjects[k].subject_id@ == id
}

/// `has_subject`: some subject has the target's type and id.
pub fn has_subject(subjects: &Vec<MemorySubject>, t: MemorySubjectType, id: &str) -> (r: bool)
    ensures
        r == names_subject(subjects@, t, id@),
{
    let mut i: usize = 0;
    while i < subjects.len()
        invariant
            0 <= i <= subjects.len(),
            forall|k: int|
                0 <= k < i ==> !((#[trigger] subjects@[k]).subject_type == t && subjects@[k].subject_id@ == id@),
        decreases subjects.len() - i,
    {
        if subjects[i].subject_type == t && crate::text::str_eq(subjects[i].subject_id.as_str(), id) {
            return true;
        }
        i = i + 1;
    }
    false
}

/// How a memory's subjects relate to the person speaking now.
#[derive(PartialEq, Eq, Structural, Clone, Copy, Debug)]
pub enum SubjectRelation {
    SameProfile,
    SameIdentity,
    SamePerson,
    VerifiedSamePersonProfile,
    LikelySamePersonProfile,
    Unlinked,
    Unknown,
    DifferentSubject,
}

impl SubjectRelation {
    pub open spec fn spec_as_str(self) -> Seq<char> {
        match self {
            SubjectRelation::SameProfile => "same_profile"@,
            SubjectRelation::SameIdentity => "same_identity"@,
            SubjectRelation::SamePerson => "same_person"@,
            SubjectRelation::VerifiedSamePersonProfile => "verified_same_person_profile"@,
            SubjectRelation::LikelySamePersonProfile => "likely_same_person_profile"@,
            SubjectRelation::Unlinked => "unlinked"@,
            SubjectRelation::Unknown => "unknown"@,
            SubjectRelation::DifferentSubject => "different_subject"@,
        }
    }

    pub fn as_str(&self) -> (r: &'static str)
        ensures
            r@ == self.spec_as_str(),
    {
        match self {
            SubjectRelation::SameProfile => "same_profile",
            SubjectRelation::SameIdentity => "same_identity",
            SubjectRelation::SamePerson => "same_person",
            SubjectRelation::VerifiedSamePersonProfile => "verified_same_person_profile",
            SubjectRelation::LikelySamePersonProfile => "likely_same_person_profile",
            SubjectRelation::Unlinked => "unlinked",
            SubjectRelation::Unknown => "unknown",
            SubjectRelation::DifferentSubject => "different_subject",
        }
    }

    /// The order in which recall lists relations, nearest first.
    pub open spec fn spec_rank(self) -> u8 {
        match self {
            SubjectRelation::SameProfile => 0,
            SubjectRelation::SameIdentity => 1,
            SubjectRelation::SamePerson => 2,
            SubjectRelation::VerifiedSamePersonProfile => 3,
            SubjectRelation::LikelySamePersonProfile => 4,
            SubjectRelation::Unlinked => 5,
            SubjectRelation::Unknown => 6,
            SubjectRelation::DifferentSubject => 7,
        }
    }

    /// `relation_rank`.
    pub fn rank(&self) -> (r: u8)
        ensures
            r == self.spec_rank(),
    {
        match self {
            SubjectRelation::SameProfile => 0,
            SubjectRelation::SameIdentity => 1,
            SubjectRelation::SamePerson => 2,
            SubjectRelation::VerifiedSamePersonProfile => 3,
            SubjectRelation::LikelySamePersonProfile => 4,
            SubjectRelation::Unlinked => 5,
            SubjectRelation::Unknown => 6,
            SubjectRelation::DifferentSubject => 7,
        }
    }
}

/// The stored link of a profile: the first one listed for it.
pub open spec fn link_for(links: Seq<ProfileLink>, profile: Seq<char>) -> Option<ProfileLink>
    decreases links.len(),
{
    if links.len() == 0 {
        None
    } else if links[0].profile@ == profile {
        Some(links[0])
    } else {
        link_for(links.drop_first(), profile)
    }
}

/// What a link to the speaker's person says of a profile subject.
pub open spec fn linked_relation(status: LinkStatus) -> SubjectRelation {
    match status {
        LinkStatus::Verified => SubjectRelation::VerifiedSamePersonProfile,
        LinkStatus::Likely => SubjectRelation::LikelySamePersonProfile,
        _ => SubjectRelation::DifferentSubject,
    }
}

/// The first profile subject, from `i` on, linked to the person.
pub open spec fn profile_link_relation(
    subjects: Seq<MemorySubject>,
    links: Seq<ProfileLink>,
    person: Seq<char>,
    i: int,
) -> Option<SubjectRelation>
    decreases subjects.len() - i,
{
    if i < 0 || i >= subjects.len() {
        None
    } else if subjects[i].subject_type == MemorySubjectType::Profile && (match link_for(
        links,
        subjects[i].subject_id@,
    ) {
        Some(l) => l.person@ == person,
        None => false,
    }) {
        Some(linked_relation(link_for(links, subjects[i].subject_id@)->0.status))
    } else {
        profile_link_relation(subjects, links, person, i + 1)
    }
}

/// `current_subject_relation`: the nearest relation, checked identity,
/// profile, person, then the person's linked profiles.
pub open spec fn subject_relation(
    subjects: Seq<MemorySubject>,
    current: Option<InboundMessage>,
    links: Seq<ProfileLink>,
) -> SubjectRelation {
    match current {
        None => SubjectRelation::Unknown,
        Some(cur) => {
            if cur.identity is Some && names_subject(subjects, MemorySubjectType::Identity, cur.identity->0@) {
                SubjectRelation::SameIdentity
            } else if cur.profile is Some && names_subject(subjects, MemorySubjectType::Profile, cur.profile->0@) {
                SubjectRelation::SameProfile
            } else if cur.person is Some && names_subject(subjects, MemorySubjectType::Person, cur.person->0@) {
                SubjectRelation::SamePerson
            } else if cur.person is Some && profile_link_relation(subjects, links, cur.person->0@, 0) is Some {
                profile_link_relation(subjects, links, cur.person->0@, 0)->0
            } else if subjects.len() > 0 {
                SubjectRelation::DifferentSubject
            } else {
                SubjectRelation::Unlinked
            }
        },
    }
}

proof fn lemma_profile_link_relation_source(
    subjects: Seq<MemorySubject>,
    links: Seq<ProfileLink>,
    person: Seq<char>,
    i: int,
)
    requires
        profile_link_relation(subjects, links, person, i) is Some,
    ensures
        exists|k: int|
            i <= k < subjects.len() && (#[trigger] subjects[k]).subject_type == MemorySubjectType::Profile
                && link_for(links, subjects[k].subject_id@) is Some && link_for(links, subjects[k].subject_id@)->0.person@
                == person && (match link_for(links, subjects[k].subject_id@)->0.status {
                LinkStatus::Verified => profile_link_relation(subjects, links, person, i) == Some(
                    SubjectRelation::VerifiedSamePersonProfile,
                ),
                LinkStatus::Likely => profile_link_relation(subjects, links, person, i) == Some(
                    SubjectRelation::LikelySamePersonProfile,
                ),
                _ => profile_link_relation(subjects, links, person, i) == Some(SubjectRelation::DifferentSubject),
            }),
    decreases subjects.len() - i,
{
    if subjects[i].subject_type == MemorySubjectType::Profile && (match link_for(links, subjects[i].subject_id@) {
        Some(l) => l.person@ == person,
        None => false,
    }) {
        assert(subjects[i].subject_type == MemorySubjectType::Profile);
    } else {
        lemma_profile_link_relation_source(subjects, links, person, i + 1);
    }
}

/// A memory about a profile linked to the speaker's person ranks by that
/// link's own status: the relation is "verified same person profile" only
/// through a link recorded as verified, and "likely same person profile"
/// only through one recorded as likely, each link naming the speaker's
/// person.
pub proof fn lemma_linked_relation_follows_link_status(
    subjects: Seq<MemorySubject>,
    cur: InboundMessage,
    links: Seq<ProfileLink>,
)
    ensures
        subject_relation(subjects, Some(cur), links) == SubjectRelation::VerifiedSamePersonProfile ==> exists|k: int|
            0 <= k < subjects.len() && (#[trigger] subjects[k]).subject_type == MemorySubjectType::Profile && link_for(
                links,
                subjects[k].subject_id@,
            ) is Some && Some(link_for(links, subjects[k].subject_id@)->0.person@) == opt_view(cur.person) && link_for(
                links,
                subjects[k].subject_id@,
            )->0.status == LinkStatus::Verified,
        subject_relation(subjects, Some(cur), links) == SubjectRelation::LikelySamePersonProfile ==> exists|k: int|
            0 <= k < subjects.len() && (#[trigger] subjects[k]).subject_type == MemorySubjectType::Profile && link_for(
                links,
                subjects[k].subject_id@,
            ) is Some && Some(link_for(links, subjects[k].subject_id@)->0.person@) == opt_view(cur.person) && link_for(
                links,
                subjects[k].subject_id@,
            )->0.status == LinkStatus::Likely,
{
    let r = subject_relation(subjects, Some(cur), links);
    if r == SubjectRelation::VerifiedSamePersonProfile || r == SubjectRelation::LikelySamePersonProfile {
        let person = cur.person->0@;
        lemma_profile_link_relation_source(subjects, links, person, 0);
    }
}

/// For a memory whose only subject is a profile, when the speaker's message
/// names neither that profile nor the memory by identity or person, the
/// relation comes from the profile's stored link to the speaker's person:
/// verified, likely, or no relation, by the link's status.
pub proof fn lemma_single_profile_relation(p: MemorySubject, cur: InboundMessage, links: Seq<ProfileLink>, l: ProfileLink)
    requires
        p.subject_type == MemorySubjectType::Profile,
        cur.profile is None || cur.profile->0@ != p.subject_id@,
        cur.person is Some,
        link_for(links, p.subject_id@) == Some(l),
        l.person@ == cur.person->0@,
    ensures
        l.status == LinkStatus::Verified ==> subject_relation(seq![p], Some(cur), links)
            == SubjectRelation::VerifiedSamePersonProfile,
        l.status == LinkStatus::Likely ==> subject_relation(seq![p], Some(cur), links)
            == SubjectRelation::LikelySamePersonProfile,
{
    let s = seq![p];
    assert(!names_subject(s, MemorySubjectType::Identity, cur.identity->0@));
    assert(!names_subject(s, MemorySubjectType::Person, cur.person->0@));
    if cur.profile is Some {
        assert(!names_subject(s, MemorySubjectType::Profile, cur.profile->0@));
    }
    assert(s[0] == p);
}

fn find_link(links: &Vec<ProfileLink>, profile: &String) -> (r: Option<usize>)
    ensures
        match r {
            Some(k) => k < links@.len() && link_for(links@, profile@) == Some(links@[k as int]),
            None => link_for(links@, profile@) is None,
        },
{
    let mut i: usize = 0;
    assert(links@.skip(0) =~= links@);
    while i < links.len()
        invariant
            0 <= i <= links.len(),
            link_for(links@, profile@) == link_for(links@.skip(i as int), profile@),
        decreases links.len() - i,
    {
        assert(links@.skip(i as int).drop_first() =~= links@.skip(i + 1));
        assert(links@.skip(i as int)[0] == links@[i as int]);
        if links[i].profile == *profile {
            return Some(i);
        }
        i = i + 1;
    }
    None
}

/// How a memory's subjects relate to the current message; `links` holds the
/// stored person link of the memory's profile subjects.
#[verifier::loop_isolation(false)]
pub fn current_subject_relation(
    subjects: &Vec<MemorySubject>,
    current: Option<&InboundMessage>,
    links: &Vec<ProfileLink>,
) -> (r: SubjectRelation)
    ensures
        r == subject_relation(subjects@, match current {
            Some(c) => Some(*c),
            None => None,
        }, links@),
{
    let cur = match current {
        Some(c) => c,
        None => {
            return SubjectRelation::Unknown;
        },
    };
    match &cur.identity {
        Some(id) => if has_subject(subjects, MemorySubjectType::Identity, id.as_str()) {
            return SubjectRelation::SameIdentity;
        },
        None => {},
    }
    match &cur.profile {
        Some(id) => if has_subject(subjects, MemorySubjectType::Profile, id.as_str()) {
            return SubjectRelation::SameProfile;
        },
        None => {},
    }
    match &cur.person {
        Some(person) => {
            if has_subject(subjects, MemorySubjectType::Person, person.as_str()) {
                return SubjectRelation::SamePerson;
            }
            let mut i: usize = 0;
            while i < subjects.len()
                invariant
                    0 <= i <= subjects.len(),
                    profile_link_relation(subjects@, links@, person@, 0) == profile_link_relation(
                        subjects@,
                        links@,
                        person@,
                        i as int,
                    ),
                decreases subjects.len() - i,
            {
                if subjects[i].subject_type == MemorySubjectType::Profile {
                    match find_link(links, &subjects[i].subject_id) {
                        Some(k) => {
                            if links[k].person == *person {
                                assert(profile_link_relation(subjects@, links@, person@, i as int) == Some(
                                    linked_relation(links@[k as int].status),
                                ));
                                return match links[k].status {
                                    LinkStatus::Verified => SubjectRelation::VerifiedSamePersonProfile,
                                    LinkStatus::Likely => SubjectRelation::LikelySamePersonProfile,
                                    _ => SubjectRelation::DifferentSubject,
                                };
                            }
                        },
                        None => {},
                    }
                }
                i = i + 1;
            }
        },
        None => {},
    }
    if subjects.len() > 0 {
        SubjectRelation::DifferentSubject
    } else {
        SubjectRelation::Unlinked
    }
}

// ---------------------------------------------------------------------------
// Recall
// ---------------------------------------------------------------------------

/// How many recalled memory ids a session keeps.
pub const MAX_RECALLED_MEMORY_IDS: usize = 32;

/// The last `MAX_RECALLED_MEMORY_IDS` items.
pub open spec fn keep_last(s: Seq<Seq<char>>) -> Seq<Seq<char>> {
    if s.len() > MAX_RECALLED_MEMORY_IDS {
        s.skip(s.len() - MAX_RECALLED_MEMORY_IDS)
    } else {
        s
    }
}

/// `remember_recalled_memory`: notes a recalled id once, keeping the most
/// recent ones.
pub fn remember_recalled_memory(state: &mut SessionState, id: &String)
    ensures
        keys_view(old(state).recalled_memory_ids@).contains(id@) ==> final(state).recalled_memory_ids@
            == old(state).recalled_memory_ids@,
        !keys_view(old(state).recalled_memory_ids@).contains(id@) ==> keys_view(
            final(state).recalled_memory_ids@,
        ) == keep_last(keys_view(old(state).recalled_memory_ids@).push(id@)),
        *final(state) == (SessionState { recalled_memory_ids: final(state).recalled_memory_ids, ..*old(state) }),
{
    if crate::session::holds_key(&state.recalled_memory_ids, id) {
        return;
    }
    let ghost pushed = keys_view(old(state).recalled_memory_ids@).push(id@);
    let mut ids: Vec<String> = Vec::new();
    std::mem::swap(&mut ids, &mut state.recalled_memory_ids);
    ids.push(id.clone());
    assert(keys_view(ids@) =~= pushed);
    if ids.len() > MAX_RECALLED_MEMORY_IDS {
        let start = ids.len() - MAX_RECALLED_MEMORY_IDS;
        let mut kept: Vec<String> = Vec::new();
        let mut i: usize = start;
        while i < ids.len()
            invariant
                start <= i <= ids.len(),
                keys_view(ids@) == pushed,
                keys_view(kept@) == pushed.subrange(start as int, i as int),
            decreases ids.len() - i,
        {
            let ghost before = kept@;
            kept.push(ids[i].clone());
            assert(keys_view(kept@) =~= keys_view(before).push(ids@[i as int]@));
            assert(pushed.subrange(start as int, i + 1) =~= pushed.subrange(start as int, i as int).push(
                pushed[i as int],
            ));
            i = i + 1;
        }
        assert(pushed.subrange(start as int, ids.len() as int) =~= pushed.skip(start as int));
        state.recalled_memory_ids = kept;
    } else {
        state.recalled_memory_ids = ids;
    }
}

/// Recalled ids stay distinct and within bound, whatever is recalled.
pub proof fn lemma_recalled_ids_stay_distinct_and_bounded(before: Seq<Seq<char>>, id: Seq<char>)
    requires
        before.no_duplicates(),
        before.len() <= MAX_RECALLED_MEMORY_IDS,
    ensures
        !before.contains(id) ==> keep_last(before.push(id)).no_duplicates() && keep_last(
            before.push(id),
        ).len() <= MAX_RECALLED_MEMORY_IDS && keep_last(before.push(id)).contains(id),
{
    if !before.contains(id) {
        crate::session::lemma_push_contains(before, id);
        let p = before.push(id);
        let k = keep_last(p);
        assert(p[p.len() - 1] == id);
        if p.len() > MAX_RECALLED_MEMORY_IDS {
            assert(k[k.len() - 1] == id);
            assert forall|a: int, b: int| 0 <= a < k.len() && 0 <= b < k.len() && a != b implies k[a] != k[b] by {
                assert(k[a] == p[a + 1]);
                assert(k[b] == p[b + 1]);
            }
        }
        assert(k.contains(id)) by {
            assert(k[k.len() - 1] == id);
        }
    }
}

/// The order recall lists memories in: nearest relation first, then the
/// store's own order.
pub open spec fn listed_before(ranks: Seq<u8>, a: int, b: int) -> bool {
    ranks[a] < ranks[b] || (ranks[a] == ranks[b] && a < b)
}

/// The positions of the store's results in the order recall lists them.
pub fn recall_order(ranks: &Vec<u8>) -> (r: Vec<usize>)
    ensures
        r@.len() == ranks@.len(),
        forall|k: int| 0 <= k < r@.len() ==> #[trigger] r@[k] < ranks@.len(),
        r@.no_duplicates(),
        forall|a: int, b: int|
            0 <= a < b < r@.len() ==> listed_before(ranks@, #[trigger] r@[a] as int, #[trigger] r@[b] as int),
{
    let mut order: Vec<usize> = Vec::new();
    let mut i: usize = 0;
    while i < ranks.len()
        invariant
            0 <= i <= ranks.len(),
            order@.len() == i,
            forall|k: int| 0 <= k < order@.len() ==> #[trigger] order@[k] < i,
            order@.no_duplicates(),
            forall|a: int, b: int|
                0 <= a < b < order@.len() ==> listed_before(ranks@, #[trigger] order@[a] as int, #[trigger] order@[b] as int),
        decreases ranks.len() - i,
    {
        // The new position goes after every entry whose rank is not greater.
        let mut j: usize = order.len();
        while j > 0 && ranks[order[j - 1]] > ranks[i]
            invariant
                0 <= j <= order@.len(),
                order@.len() == i,
                i < ranks@.len(),
                forall|k: int| 0 <= k < order@.len() ==> #[trigger] order@[k] < i,
                forall|k: int| j <= k < order@.len() ==> ranks@[#[trigger] order@[k] as int] > ranks@[i as int],
            decreases j,
        {
            j = j - 1;
        }
        let ghost before = order@;
        order.insert(j, i);
        proof {
            assert(order@ =~= before.subrange(0, j as int).push(i).add(before.subrange(j as int, before.len() as int)));
            assert forall|k: int| 0 <= k < order@.len() implies #[trigger] order@[k] < i + 1 by {
                if k < j {
                    assert(order@[k] == before[k]);
                } else if k > j {
                    assert(order@[k] == before[k - 1]);
                }
            }
            assert forall|a: int, b: int| 0 <= a < order@.len() && 0 <= b < order@.len() && a != b
                implies order@[a] != order@[b] by {
                if a != j && b != j {
                    let a0 = if a < j { a } else { a - 1 };
                    let b0 = if b < j { b } else { b - 1 };
                    assert(order@[a] == before[a0]);
                    assert(order@[b] == before[b0]);
                } else if a == j {
                    let b0 = if b < j { b } else { b - 1 };
                    assert(order@[b] == before[b0]);
                } else {
                    let a0 = if a < j { a } else { a - 1 };
                    assert(order@[a] == before[a0]);
                }
            }
            assert forall|a: int, b: int|
                0 <= a < b < order@.len() implies listed_before(ranks@, #[trigger] order@[a] as int, #[trigger] order@[b] as int) by {
                if b < j {
                    assert(order@[a] == before[a]);
                    assert(order@[b] == before[b]);
                } else if a > j {
                    assert(order@[a] == before[a - 1]);
                    assert(order@[b] == before[b - 1]);
                } else if a < j && b > j {
                    assert(order@[a] == before[a]);
                    assert(order@[b] == before[b - 1]);
                    if j > 0 {
                        assert(ranks@[before[j - 1] as int] <= ranks@[i as int]);
                        assert(listed_before(ranks@, before[a] as int, before[j - 1] as int) || a == j - 1);
                    }
                    assert(ranks@[before[b - 1] as int] > ranks@[i as int]);
                } else if a == j {
                    assert(order@[b] == before[b - 1]);
                    assert(ranks@[before[b - 1] as int] > ranks@[i as int]);
                } else {
                    assert(order@[a] == before[a]);
                    assert(b == j);
                    assert(before[a] < i);
                    if j > 0 {
                        assert(ranks@[before[j - 1] as int] <= ranks@[i as int]);
                        assert(listed_before(ranks@, before[a] as int, before[j - 1] as int) || a == j - 1);
                    }
                }
            }
        }
        i = i + 1;
    }
    order
}

// ---------------------------------------------------------------------------
// Promotion to a person and demotion to a profile
// ---------------------------------------------------------------------------

/// A subject as plain values: kind, id and role.
pub open spec fn subject_view(s: MemorySubject) -> (MemorySubjectType, Seq<char>, Option<Seq<char>>) {
    (s.subject_type, s.subject_id@, opt_view(s.role))
}

pub open spec fn subject_views(v: Seq<MemorySubject>) -> Seq<(MemorySubjectType, Seq<char>, Option<Seq<char>>)> {
    v.map_values(|s: MemorySubject| subject_view(s))
}

/// The view list names a subject of that kind and id.
pub open spec fn views_name(
    v: Seq<(MemorySubjectType, Seq<char>, Option<Seq<char>>)>,
    t: MemorySubjectType,
    id: Seq<char>,
) -> bool {
    exists|k: int| 0 <= k < v.len() && (#[trigger] v[k]).0 == t && v[k].1 == id
}

/// Adds the subject (with role "about") unless one of its kind and id is there.
pub open spec fn with_subject(
    v: Seq<(MemorySubjectType, Seq<char>, Option<Seq<char>>)>,
    t: MemorySubjectType,
    id: Seq<char>,
) -> Seq<(MemorySubjectType, Seq<char>, Option<Seq<char>>)> {
    if views_name(v, t, id) {
        v
    } else {
        v.push((t, id, Some("about"@)))
    }
}

/// Whether demotion keeps a subject: every non-person subject, and a person
/// subject only when another person is the one removed.
pub open spec fn demotion_keeps(
    s: (MemorySubjectType, Seq<char>, Option<Seq<char>>),
    removed: Option<Seq<char>>,
) -> bool {
    s.0 != MemorySubjectType::Person || (match removed {
        Some(p) => s.1 != p,
        None => false,
    })
}

pub open spec fn demotion_kept(
    v: Seq<(MemorySubjectType, Seq<char>, Option<Seq<char>>)>,
    removed: Option<Seq<char>>,
) -> Seq<(MemorySubjectType, Seq<char>, Option<Seq<char>>)>
    decreases v.len(),
{
    if v.len() == 0 {
        v
    } else if demotion_keeps(v.last(), removed) {
        demotion_kept(v.drop_last(), removed).push(v.last())
    } else {
        demotion_kept(v.drop_last(), removed)
    }
}

pub open spec fn promoted(
    v: Seq<(MemorySubjectType, Seq<char>, Option<Seq<char>>)>,
    person: Seq<char>,
) -> Seq<(MemorySubjectType, Seq<char>, Option<Seq<char>>)> {
    with_subject(v, MemorySubjectType::Person, person)
}

pub open spec fn demoted(
    v: Seq<(MemorySubjectType, Seq<char>, Option<Seq<char>>)>,
    profile: Seq<char>,
    removed: Option<Seq<char>>,
) -> Seq<(MemorySubjectType, Seq<char>, Option<Seq<char>>)> {
    with_subject(demotion_kept(v, removed), MemorySubjectType::Profile, profile)
}

fn copy_subject(s: &MemorySubject) -> (r: MemorySubject)
    ensures
        subject_view(r) == subject_view(*s),
{
    MemorySubject {
        subject_type: s.subject_type,
        subject_id: s.subject_id.clone(),
        role: crate::model::copy_opt(&s.role),
    }
}

fn push_subject_if_absent(out: &mut Vec<MemorySubject>, t: MemorySubjectType, id: &str)
    ensures
        subject_views(final(out)@) == with_subject(subject_views(old(out)@), t, id@),
{
    let ghost before = subject_views(out@);
    if has_subject(out, t, id) {
        assert(views_name(before, t, id@)) by {
            let k = choose|k: int| 0 <= k < out@.len() && (#[trigger] out@[k]).subject_type == t && out@[k].subject_id@ == id@;
            assert(before[k] == subject_view(out@[k]));
        }
    } else {
        assert(!views_name(before, t, id@)) by {
            if views_name(before, t, id@) {
                let k = choose|k: int| 0 <= k < before.len() && (#[trigger] before[k]).0 == t && before[k].1 == id@;
                assert(before[k] == subject_view(out@[k]));
                assert(names_subject(out@, t, id@));
            }
        }
        out.push(MemorySubject { subject_type: t, subject_id: owned(id), role: Some(owned("about")) });
        assert(subject_views(out@) =~= before.push((t, id@, Some("about"@))));
    }
}

/// The subjects of a memory promoted to a person.
pub fn promoted_subjects(subjects: &Vec<MemorySubject>, person: &str) -> (r: Vec<MemorySubject>)
    ensures
        subject_views(r@) == promoted(subject_views(subjects@), person@),
{
    let mut out: Vec<MemorySubject> = Vec::new();
    let mut i: usize = 0;
    while i < subjects.len()
        invariant
            0 <= i <= subjects.len(),
            subject_views(out@) == subject_views(subjects@).take(i as int),
        decreases subjects.len() - i,
    {
        let ghost before = out@;
        let c = copy_subject(&subjects[i]);
        out.push(c);
        assert(subject_views(out@) =~= subject_views(before).push(subject_view(subjects@[i as int])));
        assert(subject_views(subjects@).take(i + 1) =~= subject_views(subjects@).take(i as int).push(
            subject_view(subjects@[i as int]),
        ));
        i = i + 1;
    }
    assert(subject_views(subjects@).take(subjects.len() as int) =~= subject_views(subjects@));
    push_subject_if_absent(&mut out, MemorySubjectType::Person, person);
    out
}

/// The subjects of a memory demoted to a profile, dropping its person
/// subjects, or only the named person.
pub fn demoted_subjects(subjects: &Vec<MemorySubject>, profile: &str, removed: &Option<String>) -> (r: Vec<
    MemorySubject,
>)
    ensures
        subject_views(r@) == demoted(subject_views(subjects@), profile@, opt_view(*removed)),
{
    let mut out: Vec<MemorySubject> = Vec::new();
    let mut i: usize = 0;
    while i < subjects.len()
        invariant
            0 <= i <= subjects.len(),
            subject_views(out@) == demotion_kept(subject_views(subjects@).take(i as int), opt_view(*removed)),
        decreases subjects.len() - i,
    {
        let ghost v = subject_views(subjects@).take(i + 1);
        assert(v.drop_last() =~= subject_views(subjects@).take(i as int));
        assert(v.last() == subject_view(subjects@[i as int]));
        let s = &subjects[i];
        let keep = match s.subject_type {
            MemorySubjectType::Person => match removed {
                Some(p) => !crate::text::str_eq(s.subject_id.as_str(), p.as_str()),
                None => false,
            },
            _ => true,
        };
        if keep {
            let ghost before = out@;
            out.push(copy_subject(s));
            assert(subject_views(out@) =~= subject_views(before).push(subject_view(*s)));
        }
        i = i + 1;
    }
    assert(subject_views(subjects@).take(subjects.len() as int) =~= subject_views(subjects@));
    push_subject_if_absent(&mut out, MemorySubjectType::Profile, profile);
    out
}

proof fn lemma_kept_when_person_absent(
    v: Seq<(MemorySubjectType, Seq<char>, Option<Seq<char>>)>,
    p: Seq<char>,
)
    requires
        !views_name(v, MemorySubjectType::Person, p),
    ensures
        demotion_kept(v, Some(p)) == v,
    decreases v.len(),
{
    if v.len() > 0 {
        assert(!views_name(v.drop_last(), MemorySubjectType::Person, p)) by {
            if views_name(v.drop_last(), MemorySubjectType::Person, p) {
                let k = choose|k: int| 0 <= k < v.drop_last().len() && (#[trigger] v.drop_last()[k]).0 == MemorySubjectType::Person && v.drop_last()[k].1 == p;
                assert(v[k] == v.drop_last()[k]);
            }
        }
        lemma_kept_when_person_absent(v.drop_last(), p);
        assert(demotion_keeps(v.last(), Some(p))) by {
            if v.last().0 == MemorySubjectType::Person && v.last().1 == p {
                assert(v[v.len() - 1] == v.last());
            }
        }
        assert(v.drop_last().push(v.last()) =~= v);
    }
}

/// Demoting a promoted memory back to a profile it already names, removing
/// the promoted person, restores its subjects.
pub proof fn lemma_demotion_undoes_promotion(
    v: Seq<(MemorySubjectType, Seq<char>, Option<Seq<char>>)>,
    person: Seq<char>,
    profile: Seq<char>,
)
    requires
        !views_name(v, MemorySubjectType::Person, person),
        views_name(v, MemorySubjectType::Profile, profile),
    ensures
        demoted(promoted(v, person), profile, Some(person)) == v,
{
    let pv = promoted(v, person);
    assert(pv == v.push((MemorySubjectType::Person, person, Some("about"@))));
    assert(pv.drop_last() =~= v);
    lemma_kept_when_person_absent(v, person);
    assert(!demotion_keeps(pv.last(), Some(person)));
    assert(demotion_kept(pv, Some(person)) == v);
}

/// Promoting twice to the same person is promoting once.
pub proof fn lemma_promotion_is_idempotent(
    v: Seq<(MemorySubjectType, Seq<char>, Option<Seq<char>>)>,
    person: Seq<char>,
)
    ensures
        promoted(promoted(v, person), person) == promoted(v, person),
        views_name(promoted(v, person), MemorySubjectType::Person, person),
{
    let pv = promoted(v, person);
    if !views_name(v, MemorySubjectType::Person, person) {
        assert(pv[pv.len() - 1].0 == MemorySubjectType::Person && pv[pv.len() - 1].1 == person);
    }
}

proof fn lemma_kept_has_no_person(
    v: Seq<(MemorySubjectType, Seq<char>, Option<Seq<char>>)>,
)
    ensures
        forall|k: int| 0 <= k < demotion_kept(v, None).len() ==> (#[trigger] demotion_kept(v, None)[k]).0
            != MemorySubjectType::Person,
    decreases v.len(),
{
    if v.len() > 0 {
        lemma_kept_has_no_person(v.drop_last());
        let d = demotion_kept(v.drop_last(), None);
        if demotion_keeps(v.last(), None) {
            assert forall|k: int| 0 <= k < d.push(v.last()).len() implies (#[trigger] d.push(v.last())[k]).0
                != MemorySubjectType::Person by {
                if k < d.len() {
                    assert(d.push(v.last())[k] == d[k]);
                }
            }
        }
    }
}

/// Demoting without naming a person leaves no person subject, and the memory
/// names the profile.
pub proof fn lemma_demotion_leaves_profile_only(
    v: Seq<(MemorySubjectType, Seq<char>, Option<Seq<char>>)>,
    profile: Seq<char>,
)
    ensures
        forall|k: int| 0 <= k < demoted(v, profile, None).len() ==> (#[trigger] demoted(v, profile, None)[k]).0
            != MemorySubjectType::Person,
        views_name(demoted(v, profile, None), MemorySubjectType::Profile, profile),
{
    lemma_kept_has_no_person(v);
    let d = demotion_kept(v, None);
    let r = demoted(v, profile, None);
    if !views_name(d, MemorySubjectType::Profile, profile) {
        assert(r[r.len() - 1].0 == MemorySubjectType::Profile && r[r.len() - 1].1 == profile);
        assert forall|k: int| 0 <= k < r.len() implies (#[trigger] r[k]).0 != MemorySubjectType::Person by {
            if k < d.len() {
                assert(r[k] == d[k]);
            }
        }
    }
}

// ---------------------------------------------------------------------------
// Tool arguments
// ---------------------------------------------------------------------------

/// `args[key].as_str()` when it is not blank, trimmed.
pub open spec fn trimmed_at(args: Json, key: Seq<char>) -> Option<Seq<char>> {
    match args.str_at(key) {
        Some(s) => if trim_seq(s).len() > 0 {
            Some(trim_seq(s))
        } else {
            None
        },
        None => None,
    }
}

pub fn trimmed_field(args: &Json, key: &str) -> (r: Option<String>)
    ensures
        opt_view(r) == trimmed_at(*args, key@),
{
    match args.str_field(key) {
        Some(s) => {
            let t = trim(s.as_str());
            if t.as_str().is_empty() {
                None
            } else {
                Some(t)
            }
        },
        None => None,
    }
}

/// A promotion or demotion request that names a memory and its new subject.
pub enum SubjectMoveError {
    MissingMemoryId,
    MissingPerson,
    MissingProfile,
}

impl SubjectMoveError {
    pub open spec fn spec_message(self) -> Seq<char> {
        match self {
            SubjectMoveError::MissingMemoryId => "Provide memory_id."@,
            SubjectMoveError::MissingPerson => "Provide person."@,
            SubjectMoveError::MissingProfile => "Provide profile."@,
        }
    }

    pub fn message(&self) -> (r: String)
        ensures
            r@ == self.spec_message(),
    {
        match self {
            SubjectMoveError::MissingMemoryId => owned("Provide memory_id."),
            SubjectMoveError::MissingPerson => owned("Provide person."),
            SubjectMoveError::MissingProfile => owned("Provide profile."),
        }
    }
}

/// The memory id and person of `promote_profile_memory_to_person`.
pub fn promotion_args(args: &Json) -> (r: Result<(String, String), SubjectMoveError>)
    ensures
        match r {
            Ok((m, p)) => trimmed_at(*args, "memory_id"@) == Some(m@) && trimmed_at(*args, "person"@) == Some(
                p@,
            ),
            Err(SubjectMoveError::MissingMemoryId) => trimmed_at(*args, "memory_id"@) is None,
            Err(SubjectMoveError::MissingPerson) => trimmed_at(*args, "memory_id"@) is Some && trimmed_at(
                *args,
                "person"@,
            ) is None,
            Err(SubjectMoveError::MissingProfile) => false,
        },
{
    let memory_id = match trimmed_field(args, "memory_id") {
        Some(m) => m,
        None => {
            return Err(SubjectMoveError::MissingMemoryId);
        },
    };
    match trimmed_field(args, "person") {
        Some(p) => Ok((memory_id, p)),
        None => Err(SubjectMoveError::MissingPerson),
    }
}

/// The memory id, profile and removed person of
/// `demote_person_memory_to_profile`.
pub fn demotion_args(args: &Json) -> (r: Result<(String, String, Option<String>), SubjectMoveError>)
    ensures
        match r {
            Ok((m, p, removed)) => trimmed_at(*args, "memory_id"@) == Some(m@) && trimmed_at(*args, "profile"@)
                == Some(p@) && opt_view(removed) == trimmed_at(*args, "person"@),
            Err(SubjectMoveError::MissingMemoryId) => trimmed_at(*args, "memory_id"@) is None,
            Err(SubjectMoveError::MissingProfile) => trimmed_at(*args, "memory_id"@) is Some && trimmed_at(
                *args,
                "profile"@,
            ) is None,
            Err(SubjectMoveError::MissingPerson) => false,
        },
{
    let memory_id = match trimmed_field(args, "memory_id") {
        Some(m) => m,
        None => {
            return Err(SubjectMoveError::MissingMemoryId);
        },
    };
    let profile = match trimmed_field(args, "profile") {
        Some(p) => p,
        None => {
            return Err(SubjectMoveError::MissingProfile);
        },
    };
    Ok((memory_id, profile, trimmed_field(args, "person")))
}

/// The store query a recall runs.
pub struct RecallPlan {
    pub query: String,
    pub limit: u64,
    pub offset: u64,
    /// The kind filter, as written.
    pub kind: Option<String>,
    pub identity: Option<String>,
    pub profile: Option<String>,
    pub person: Option<String>,
    pub include_sensitive: bool,
    /// The sensitivity ceiling in millionths, within `0..=1_000_000`.
    pub max_sensitivity_micros: Option<i128>,
    pub include_superseded: bool,
}


pub open spec fn clamp_unit_spec(m: i128) -> i128 {
    if m < 0 {
        0
    } else if m > 1_000_000 {
        1_000_000
    } else {
        m
    }
}

pub open spec fn clamp_valence_spec(m: i128) -> i128 {
    if m < -1_000_000 {
        -1_000_000i128
    } else if m > 1_000_000 {
        1_000_000
    } else {
        m
    }
}

/// `clamp_unit` on millionths: into `0..=1`.
pub fn clamp_unit(m: i128) -> (r: i128)
    ensures
        r == clamp_unit_spec(m),
{
    if m < 0 {
        0
    } else if m > 1_000_000 {
        1_000_000
    } else {
        m
    }
}

/// `clamp_valence` on millionths: into `-1..=1`.
pub fn clamp_valence(m: i128) -> (r: i128)
    ensures
        r == clamp_valence_spec(m),
{
    if m < -1_000_000 {
        -1_000_000
    } else if m > 1_000_000 {
        1_000_000
    } else {
        m
    }
}

/// The scope a recall falls back to: the current profile, else the current
/// identity, unless a scope was named or a global search asked for.
pub open spec fn recall_scope(args: Json, current: Option<InboundMessage>) -> (Option<Seq<char>>, Option<Seq<char>>) {
    let identity = trimmed_at(args, "identity"@);
    let profile = trimmed_at(args, "profile"@);
    let person = trimmed_at(args, "person"@);
    if identity is Some || profile is Some || person is Some || crate::tools::permission::global_recall_requested(args) {
        (identity, profile)
    } else {
        match current {
            Some(m) => match m.profile {
                Some(p) => (identity, Some(p@)),
                None => match m.identity {
                    Some(i) => (Some(i@), profile),
                    None => (identity, profile),
                },
            },
            None => (identity, profile),
        }
    }
}

/// Reads the recall arguments into a store query.
pub fn plan_recall(args: &Json, current: Option<&InboundMessage>) -> (r: RecallPlan)
    ensures
        r.query@ == match args.str_at("query"@) {
            Some(q) => q,
            None => Seq::empty(),
        },
        r.limit == match args.u64_at("limit"@) {
            Some(n) => n,
            None => 3,
        },
        r.offset == match args.u64_at("offset"@) {
            Some(n) => n,
            None => 0,
        },
        opt_view(r.kind) == args.str_at("kind"@),
        opt_view(r.person) == trimmed_at(*args, "person"@),
        (opt_view(r.identity), opt_view(r.profile)) == recall_scope(*args, match current {
            Some(c) => Some(*c),
            None => None,
        }),
        r.include_sensitive == args.flag_at("include_sensitive"@),
        r.max_sensitivity_micros == if args.flag_at("include_sensitive"@) {
            None
        } else {
            match args.micros_at("max_sensitivity"@) {
                Some(m) => Some(clamp_unit_spec(m)),
                None => None,
            }
        },
        r.include_superseded == args.flag_at("include_superseded"@),
{
    let query = match args.str_field("query") {
        Some(q) => q,
        None => String::new(),
    };
    let limit = match args.u64_field("limit") {
        Some(n) => n,
        None => 3,
    };
    let offset = match args.u64_field("offset") {
        Some(n) => n,
        None => 0,
    };
    let mut identity = trimmed_field(args, "identity");
    let mut profile = trimmed_field(args, "profile");
    let person = trimmed_field(args, "person");
    let global = match args.str_field("scope") {
        Some(s) => crate::text::str_eq(s.as_str(), "global"),
        None => false,
    } || args.flag("global");
    if identity.is_none() && profile.is_none() && person.is_none() && !global {
        match current {
            Some(m) => match &m.profile {
                Some(p) => {
                    profile = Some(p.clone());
                },
                None => match &m.identity {
                    Some(i) => {
                        identity = Some(i.clone());
                    },
                    None => {},
                },
            },
            None => {},
        }
    }
    let include_sensitive = args.flag("include_sensitive");
    let max_sensitivity_micros = if include_sensitive {
        None
    } else {
        match args.micros_field("max_sensitivity") {
            Some(m) => Some(clamp_unit(m)),
            None => None,
        }
    };
    RecallPlan {
        query,
        limit,
        offset,
        kind: args.str_field("kind"),
        identity,
        profile,
        person,
        include_sensitive,
        max_sensitivity_micros,
        include_superseded: args.flag("include_superseded"),
    }
}

// ---------------------------------------------------------------------------
// Inspecting, deleting and forgetting by id
// ---------------------------------------------------------------------------

/// Which by-id memory tool is asked for.
#[derive(PartialEq, Eq, Structural, Clone, Copy, Debug)]
pub enum ByIdTool {
    Inspect,
    Delete,
}

/// Why a by-id memory tool is refused.
#[derive(PartialEq, Eq, Structural, Clone, Copy, Debug)]
pub enum ByIdError {
    NotChosenPerson(ByIdTool),
    MissingMemoryId,
}

impl ByIdError {
    pub open spec fn spec_message(self) -> Seq<char> {
        match self {
            ByIdError::NotChosenPerson(ByIdTool::Inspect) => "Chosen-person authority is required to inspect memories by id."@,
            ByIdError::NotChosenPerson(ByIdTool::Delete) => "Chosen-person authority is required to delete memories by id."@,
            ByIdError::MissingMemoryId => "Provide memory_id."@,
        }
    }

    pub fn message(&self) -> (r: &'static str)
        ensures
            r@ == self.spec_message(),
    {
        match self {
            ByIdError::NotChosenPerson(ByIdTool::Inspect) => "Chosen-person authority is required to inspect memories by id.",
            ByIdError::NotChosenPerson(ByIdTool::Delete) => "Chosen-person authority is required to delete memories by id.",
            ByIdError::MissingMemoryId => "Provide memory_id.",
        }
    }
}

/// `inspect_memory` and `delete_memory` are the chosen person's alone; they
/// name the memory, and a deletion may give a trimmed reason.
pub fn by_id_request(args: &Json, authority: crate::model::Authority, tool: ByIdTool) -> (r: Result<
    (String, Option<String>),
    ByIdError,
>)
    ensures
        authority != crate::model::Authority::ChosenPerson ==> r == Err::<(String, Option<String>), ByIdError>(
            ByIdError::NotChosenPerson(tool),
        ),
        authority == crate::model::Authority::ChosenPerson ==> match r {
            Ok((id, reason)) => args.nonempty_str_at("memory_id"@) == Some(id@) && opt_view(reason) == (
            if tool == ByIdTool::Delete {
                trimmed_at(*args, "reason"@)
            } else {
                None
            }),
            Err(e) => e == ByIdError::MissingMemoryId && args.nonempty_str_at("memory_id"@) is None,
        },
{
    if authority != crate::model::Authority::ChosenPerson {
        return Err(ByIdError::NotChosenPerson(tool));
    }
    let id = match args.nonempty_str_field("memory_id") {
        Some(id) => id,
        None => {
            return Err(ByIdError::MissingMemoryId);
        },
    };
    let reason = if tool == ByIdTool::Delete {
        trimmed_field(args, "reason")
    } else {
        None
    };
    Ok((id, reason))
}

/// What `forget_memory` answers.
pub fn forget_reply(found: bool) -> (r: &'static str)
    ensures
        r@ == if found {
            "Memory forgotten."@
        } else {
            "Memory not found."@
        },
{
    if found {
        "Memory forgotten."
    } else {
        "Memory not found."
    }
}

// ---------------------------------------------------------------------------
// The plain fields of a new memory
// ---------------------------------------------------------------------------

/// The fields of `form_memory` read as they are written, numbers in
/// millionths and clamped. Kinds, types, statuses and scopes stay as written;
/// the store's policies read them.
pub struct MemoryFields {
    pub content: String,
    pub kind: Option<String>,
    pub importance_micros: i128,
    pub sensitivity_micros: i128,
    pub emotional_valence_micros: i128,
    pub confidence_micros: i128,
    pub tags: Vec<String>,
    pub memory_type: Option<String>,
    pub truth_status: Option<String>,
    pub evidence_quote: Option<String>,
    pub expires_at: Option<i64>,
    pub stability: Option<String>,
    pub subject_actor: bool,
    pub sensitivity_category: Option<String>,
    pub privacy_category: Option<String>,
    pub visibility_scope: Option<String>,
    pub dedupe_key: Option<String>,
    /// Kept only when not blank; not trimmed.
    pub supersedes: Option<String>,
    /// Kept only when not blank; not trimmed.
    pub contradiction_group: Option<String>,
    pub last_confirmed_at: Option<i64>,
    pub next_review_at: Option<i64>,
}

/// A string field that is kept only when it is not blank.
pub open spec fn nonblank_at(args: Json, key: Seq<char>) -> Option<Seq<char>> {
    match args.str_at(key) {
        Some(s) => if trim_seq(s).len() > 0 {
            Some(s)
        } else {
            None
        },
        None => None,
    }
}

fn nonblank_field(args: &Json, key: &str) -> (r: Option<String>)
    ensures
        opt_view(r) == nonblank_at(*args, key@),
{
    match args.str_field(key) {
        Some(s) => if crate::text::is_blank(s.as_str()) {
            None
        } else {
            Some(s)
        },
        None => None,
    }
}

pub open spec fn micros_or(args: Json, key: Seq<char>, default: i128) -> i128 {
    match args.micros_at(key) {
        Some(m) => m,
        None => default,
    }
}

/// Reads the plain fields of `form_memory`: importance defaults to a half,
/// sensitivity and valence to zero, confidence to one.
pub fn read_memory_fields(args: &Json) -> (r: MemoryFields)
    ensures
        r.content@ == match args.str_at("content"@) {
            Some(c) => c,
            None => Seq::empty(),
        },
        opt_view(r.kind) == args.str_at("kind"@),
        r.importance_micros == clamp_unit_spec(micros_or(*args, "importance"@, 500_000)),
        r.sensitivity_micros == clamp_unit_spec(micros_or(*args, "sensitivity"@, 0)),
        r.emotional_valence_micros == clamp_valence_spec(micros_or(*args, "emotional_valence"@, 0)),
        r.confidence_micros == clamp_unit_spec(micros_or(*args, "confidence"@, 1_000_000)),
        keys_view(r.tags@) == string_array_at(*args, "tags"@),
        opt_view(r.memory_type) == args.str_at("memory_type"@),
        opt_view(r.truth_status) == args.str_at("truth_status"@),
        opt_view(r.evidence_quote) == args.str_at("evidence_quote"@),
        r.expires_at == args.i64_at("expires_at"@),
        opt_view(r.stability) == args.str_at("stability"@),
        r.subject_actor == args.flag_at("subject_actor"@),
        opt_view(r.sensitivity_category) == args.str_at("sensitivity_category"@),
        opt_view(r.privacy_category) == args.str_at("privacy_category"@),
        opt_view(r.visibility_scope) == args.str_at("visibility_scope"@),
        opt_view(r.dedupe_key) == args.str_at("dedupe_key"@),
        opt_view(r.supersedes) == nonblank_at(*args, "supersedes"@),
        opt_view(r.contradiction_group) == nonblank_at(*args, "contradiction_group"@),
        r.last_confirmed_at == args.i64_at("last_confirmed_at"@),
        r.next_review_at == args.i64_at("next_review_at"@),
{
    let content = match args.str_field("content") {
        Some(c) => c,
        None => String::new(),
    };
    let importance = match args.micros_field("importance") {
        Some(m) => m,
        None => 500_000,
    };
    let sensitivity = match args.micros_field("sensitivity") {
        Some(m) => m,
        None => 0,
    };
    let valence = match args.micros_field("emotional_valence") {
        Some(m) => m,
        None => 0,
    };
    let confidence = match args.micros_field("confidence") {
        Some(m) => m,
        None => 1_000_000,
    };
    MemoryFields {
        content,
        kind: args.str_field("kind"),
        importance_micros: clamp_unit(importance),
        sensitivity_micros: clamp_unit(sensitivity),
        emotional_valence_micros: clamp_valence(valence),
        confidence_micros: clamp_unit(confidence),
        tags: string_array(args, "tags"),
        memory_type: args.str_field("memory_type"),
        truth_status: args.str_field("truth_status"),
        evidence_quote: args.str_field("evidence_quote"),
        expires_at: args.i64_field("expires_at"),
        stability: args.str_field("stability"),
        subject_actor: args.flag("subject_actor"),
        sensitivity_category: args.str_field("sensitivity_category"),
        privacy_category: args.str_field("privacy_category"),
        visibility_scope: args.str_field("visibility_scope"),
        dedupe_key: args.str_field("dedupe_key"),
        supersedes: nonblank_field(args, "supersedes"),
        contradiction_group: nonblank_field(args, "contradiction_group"),
        last_confirmed_at: args.i64_field("last_confirmed_at"),
        next_review_at: args.i64_field("next_review_at"),
    }
}

/// What `form_memory` answers once the memory is stored.
pub open spec fn saved_reply(id: Seq<char>, link_error: Option<Seq<char>>) -> Seq<char> {
    match link_error {
        None => "Memory saved: "@ + id,
        Some(e) => "Memory saved: "@ + id + ", but failed to link superseded memory: "@ + e,
    }
}

pub fn memory_saved_reply(id: &str, link_error: Option<&str>) -> (r: String)
    ensures
        r@ == saved_reply(id@, match link_error {
            Some(e) => Some(e@),
            None => None,
        }),
{
    let mut out = owned("Memory saved: ");
    append_str(&mut out, id);
    match link_error {
        Some(e) => {
            append_str(&mut out, ", but failed to link superseded memory: ");
            append_str(&mut out, e);
        },
        None => {},
    }
    out
}

/// A superseded memory is linked only when it is another memory than the one
/// stored (the store may merge the new one into it).
pub fn links_superseded(supersedes: &Option<String>, stored_id: &String) -> (r: bool)
    ensures
        r == match supersedes {
            Some(s) => s@ != stored_id@,
            None => false,
        },
{
    match supersedes {
        Some(s) => *s != *stored_id,
        None => false,
    }
}

/// The change a newly stored memory makes to the one it supersedes: that
/// one becomes outdated and superseded by the new one.
pub struct SupersedeUpdate {
    pub memory_id: String,
    pub truth_status: String,
    pub superseded_by: String,
}

/// The superseded memory's update, when there is one to make
/// (`links_superseded`).
pub fn supersede_update(supersedes: &Option<String>, stored_id: &String) -> (r: Option<SupersedeUpdate>)
    ensures
        match supersedes {
            Some(s) => if s@ != stored_id@ {
                r is Some && r->0.memory_id@ == s@ && r->0.truth_status@ == "outdated"@ && r->0.superseded_by@
                    == stored_id@
            } else {
                r is None
            },
            None => r is None,
        },
{
    if links_superseded(supersedes, stored_id) {
        match supersedes {
            Some(s) => Some(
                SupersedeUpdate { memory_id: s.clone(), truth_status: owned("outdated"), superseded_by: stored_id.clone() },
            ),
            None => None,
        }
    } else {
        None
    }
}

pub open spec fn save_failed_reply(e: Seq<char>) -> Seq<char> {
    "Failed to save memory: "@ + e
}

/// How `form_memory` ends once the store answered: `stored` is the id the
/// memory was saved under, or the store's error; `link_error` is the error of
/// linking the superseded memory, if that failed. A memory saved and linked
/// is recorded among the session's formed memories; otherwise the session
/// is unchanged.
pub fn finish_form(state: &mut SessionState, stored: Result<String, String>, link_error: Option<String>) -> (r: String)
    ensures
        match stored {
            Err(e) => r@ == save_failed_reply(e@) && *final(state) == *old(state),
            Ok(id) => {
                &&& r@ == saved_reply(id@, opt_view(link_error))
                &&& link_error is None ==> *final(state) == (SessionState {
                    memories_formed: final(state).memories_formed,
                    ..*old(state)
                }) && final(state).memories_formed@ == old(state).memories_formed@.push(id)
                &&& link_error is Some ==> *final(state) == *old(state)
            },
        },
{
    match stored {
        Err(e) => {
            let mut out = owned("Failed to save memory: ");
            append_str(&mut out, e.as_str());
            out
        },
        Ok(id) => {
            let reply = match &link_error {
                Some(e) => memory_saved_reply(id.as_str(), Some(e.as_str())),
                None => memory_saved_reply(id.as_str(), None),
            };
            if link_error.is_none() {
                state.memories_formed.push(id);
            }
            reply
        },
    }
}

/// The recalled ids after noting each of `ids` in turn
/// (`remember_recalled_memory` applied to each).
pub open spec fn recalled_after(held: Seq<Seq<char>>, ids: Seq<Seq<char>>) -> Seq<Seq<char>>
    decreases ids.len(),
{
    if ids.len() == 0 {
        held
    } else {
        let h = recalled_after(held, ids.drop_last());
        if h.contains(ids.last()) {
            h
        } else {
            keep_last(h.push(ids.last()))
        }
    }
}

/// Notes every recalled memory, in the order the store returned them.
pub fn remember_recalled_memories(state: &mut SessionState, ids: &Vec<String>)
    ensures
        keys_view(final(state).recalled_memory_ids@) == recalled_after(
            keys_view(old(state).recalled_memory_ids@),
            keys_view(ids@),
        ),
        *final(state) == (SessionState { recalled_memory_ids: final(state).recalled_memory_ids, ..*old(state) }),
{
    let ghost held = keys_view(old(state).recalled_memory_ids@);
    let mut i: usize = 0;
    while i < ids.len()
        invariant
            0 <= i <= ids@.len(),
            keys_view(state.recalled_memory_ids@) == recalled_after(held, keys_view(ids@).take(i as int)),
            *state == (SessionState { recalled_memory_ids: state.recalled_memory_ids, ..*old(state) }),
        decreases ids@.len() - i,
    {
        proof {
            let t = keys_view(ids@).take(i + 1);
            assert(t.drop_last() =~= keys_view(ids@).take(i as int));
            assert(t.last() == ids@[i as int]@);
        }
        remember_recalled_memory(state, &ids[i]);
        i = i + 1;
    }
    assert(keys_view(ids@).take(ids@.len() as int) =~= keys_view(ids@));
}

/// `recall_memories`' answer: the memories' JSON listed in `order`
/// (`recall_order` of their relation ranks).
pub fn recall_reply(items: Vec<Json>, order: &Vec<usize>) -> (r: Json)
    requires
        forall|k: int| 0 <= k < order@.len() ==> #[trigger] order@[k] < items@.len(),
        order@.no_duplicates(),
    ensures
        match r.field("memories"@) {
            Some(Json::Array(v)) => v@ == order@.map_values(|k: usize| items@[k as int]),
            _ => false,
        },
        forall|k: Seq<char>| k != "memories"@ ==> #[trigger] r.field(k) is None,
{
    let ghost orig = items@;
    let mut items = items;
    let mut out: Vec<Json> = Vec::new();
    let mut i: usize = 0;
    while i < order.len()
        invariant
            0 <= i <= order@.len(),
            forall|k: int| 0 <= k < order@.len() ==> #[trigger] order@[k] < orig.len(),
            order@.no_duplicates(),
            items@.len() == orig.len(),
            out@ == order@.take(i as int).map_values(|k: usize| orig[k as int]),
            forall|j: int|
                0 <= j < orig.len() && !order@.take(i as int).contains(j as usize) ==> #[trigger] items@[j] == orig[j],
        decreases order@.len() - i,
    {
        let k = order[i];
        assert(!order@.take(i as int).contains(k)) by {
            if order@.take(i as int).contains(k) {
                let t = choose|t: int| 0 <= t < i && order@.take(i as int)[t] == k;
                assert(order@[t] == order@[i as int]);
            }
        }
        let ghost before = items@;
        let mut slot = Json::Null;
        std::mem::swap(&mut slot, &mut items[k]);
        proof {
            assert(slot == orig[k as int]);
        }
        out.push(slot);
        proof {
            assert(order@.take(i + 1) =~= order@.take(i as int).push(k));
            assert(out@ =~= order@.take(i + 1).map_values(|k: usize| orig[k as int]));
            assert forall|j: int|
                0 <= j < orig.len() && !order@.take(i + 1).contains(j as usize) implies #[trigger] items@[j] == orig[j] by {
                if j == k as int {
                    assert(order@.take(i + 1)[i as int] == k);
                } else {
                    assert(items@[j] == before[j]);
                    if order@.take(i as int).contains(j as usize) {
                        let t = choose|t: int| 0 <= t < i && order@.take(i as int)[t] == j as usize;
                        assert(order@.take(i + 1)[t] == j as usize);
                    }
                }
            }
        }
        i = i + 1;
    }
    assert(order@.take(order@.len() as int) =~= order@);
    let mut e: Vec<(String, Json)> = Vec::new();
    crate::json::object_insert(&mut e, "memories", Json::Array(out));
    Json::Object(e)
}

/// The content a memory is stored with after its subjects move: its body,
/// under the header of the new subjects (`canonicalize_content_for_subjects`
/// of `memory_body`).
pub fn moved_content(content: &str, subjects: &Vec<MemorySubject>, person_names: &Vec<Option<String>>) -> (r: String)
    requires
        person_names@.len() == subjects@.len(),
    ensures
        r@ == canonical_content(body_of(content@), subjects@, person_names@),
{
    let body = memory_body(content);
    canonicalize_content_for_subjects(body.as_str(), subjects, person_names)
}

proof fn lemma_move_keys_distinct()
    ensures
        "status"@ != "memory_id"@,
        "status"@ != "person"@,
        "status"@ != "profile"@,
        "status"@ != "removed_person"@,
        "status"@ != "reason"@,
        "memory_id"@ != "person"@,
        "memory_id"@ != "profile"@,
        "memory_id"@ != "removed_person"@,
        "memory_id"@ != "reason"@,
        "person"@ != "reason"@,
        "profile"@ != "removed_person"@,
        "profile"@ != "reason"@,
        "removed_person"@ != "reason"@,
{
    reveal_strlit("status");
    reveal_strlit("memory_id");
    reveal_strlit("person");
    reveal_strlit("profile");
    reveal_strlit("removed_person");
    reveal_strlit("reason");
    assert("status"@[0] != "memory_id"@[0]);
    assert("status"@[0] != "person"@[0]);
    assert("status"@[0] != "profile"@[0]);
    assert("status"@[0] != "removed_person"@[0]);
    assert("status"@[0] != "reason"@[0]);
    assert("memory_id"@[0] != "person"@[0]);
    assert("memory_id"@[0] != "profile"@[0]);
    assert("memory_id"@[0] != "removed_person"@[0]);
    assert("memory_id"@[0] != "reason"@[0]);
    assert("person"@[0] != "reason"@[0]);
    assert("profile"@[2] != "removed_person"@[2]);
    assert("profile"@[0] != "reason"@[0]);
    assert("removed_person"@[2] != "reason"@[2]);
}

/// A string, or null.
pub open spec fn str_or_null(o: Option<String>) -> Json {
    match o {
        Some(s) => Json::Str(s),
        None => Json::Null,
    }
}

fn str_or_null_exec(o: Option<String>) -> (r: Json)
    ensures
        r == str_or_null(o),
{
    match o {
        Some(s) => Json::Str(s),
        None => Json::Null,
    }
}

/// `promote_profile_memory_to_person`'s answer once the memory is updated.
pub fn promoted_reply(memory_id: String, person: String, reason: Option<String>) -> (r: Json)
    ensures
        r.str_at("status"@) == Some("promoted"@),
        r.field("memory_id"@) == Some(Json::Str(memory_id)),
        r.field("person"@) == Some(Json::Str(person)),
        r.field("reason"@) == Some(str_or_null(reason)),
        forall|k: Seq<char>|
            k != "status"@ && k != "memory_id"@ && k != "person"@ && k != "reason"@ ==> #[trigger] r.field(k) is None,
{
    proof {
        lemma_move_keys_distinct();
    }
    let mut e: Vec<(String, Json)> = Vec::new();
    crate::json::object_insert(&mut e, "status", Json::Str(owned("promoted")));
    crate::json::object_insert(&mut e, "memory_id", Json::Str(memory_id));
    crate::json::object_insert(&mut e, "person", Json::Str(person));
    crate::json::object_insert(&mut e, "reason", str_or_null_exec(reason));
    Json::Object(e)
}

/// `demote_person_memory_to_profile`'s answer once the memory is updated.
pub fn demoted_reply(memory_id: String, profile: String, removed_person: Option<String>, reason: Option<String>) -> (r:
    Json)
    ensures
        r.str_at("status"@) == Some("demoted"@),
        r.field("memory_id"@) == Some(Json::Str(memory_id)),
        r.field("profile"@) == Some(Json::Str(profile)),
        r.field("removed_person"@) == Some(str_or_null(removed_person)),
        r.field("reason"@) == Some(str_or_null(reason)),
        forall|k: Seq<char>|
            k != "status"@ && k != "memory_id"@ && k != "profile"@ && k != "removed_person"@ && k != "reason"@
                ==> #[trigger] r.field(k) is None,
{
    proof {
        lemma_move_keys_distinct();
    }
    let mut e: Vec<(String, Json)> = Vec::new();
    crate::json::object_insert(&mut e, "status", Json::Str(owned("demoted")));
    crate::json::object_insert(&mut e, "memory_id", Json::Str(memory_id));
    crate::json::object_insert(&mut e, "profile", Json::Str(profile));
    crate::json::object_insert(&mut e, "removed_person", str_or_null_exec(removed_person));
    crate::json::object_insert(&mut e, "reason", str_or_null_exec(reason));
    Json::Object(e)
}

} // verus!
