//! Bookkeeping of messages that arrive while a session is working: each
//! source message is shown to the model at most once, keyed by its gateway
//! and message id (never by its text).
use vstd::prelude::*;
use vstd::string::*;
use crate::model::{InboundMessage, same_message};
use crate::text::{append_str, owned};

verus! {

/// Keys of a list of strings, as sequences.
pub open spec fn keys_view(v: Seq<String>) -> Seq<Seq<char>> {
    v.map_values(|s: String| s@)
}

/// The dedupe key of a message: `"{gateway_id}:{message_id}"`, when both are
/// non-empty.
pub open spec fn message_key(m: InboundMessage) -> Option<Seq<char>> {
    if m.gateway_id@.len() == 0 || m.message_id@.len() == 0 {
        None
    } else {
        Some(m.gateway_id@ + ":"@ + m.message_id@)
    }
}

/// Some message among the first `n` has key `k`.
pub open spec fn key_among(ms: Seq<InboundMessage>, n: int, k: Seq<char>) -> bool {
    exists|j: int| 0 <= j < n && message_key(#[trigger] ms[j]) == Some(k)
}

/// `inbound_message_key`.
pub fn inbound_message_key(msg: &InboundMessage) -> (r: Option<String>)
    ensures
        match r {
            Some(k) => message_key(*msg) == Some(k@),
            None => message_key(*msg) is None,
        },
{
    if msg.gateway_id.as_str().is_empty() || msg.message_id.as_str().is_empty() {
        return None;
    }
    let mut k = msg.gateway_id.clone();
    append_str(&mut k, ":");
    append_str(&mut k, msg.message_id.as_str());
    Some(k)
}

/// Whether a list of keys holds `k`.
pub fn holds_key(keys: &Vec<String>, k: &String) -> (r: bool)
    ensures
        r == keys_view(keys@).contains(k@),
{
    let mut i: usize = 0;
    while i < keys.len()
        invariant
            0 <= i <= keys.len(),
            forall|j: int| 0 <= j < i ==> keys@[j]@ != k@,
        decreases keys.len() - i,
    {
        if keys[i] == *k {
            assert(keys_view(keys@)[i as int] == k@);
            return true;
        }
        i = i + 1;
    }
    assert forall|j: int| 0 <= j < keys_view(keys@).len() implies keys_view(keys@)[j] != k@ by {
        assert(keys_view(keys@)[j] == keys@[j]@);
    }
    false
}

/// Adds `k` to a key set (set insertion: nothing changes if it is there).
pub fn insert_key(keys: &mut Vec<String>, k: String)
    ensures
        keys_view(old(keys)@).contains(k@) ==> final(keys)@ == old(keys)@,
        !keys_view(old(keys)@).contains(k@) ==> final(keys)@ == old(keys)@.push(k),
{
    if !holds_key(keys, &k) {
        keys.push(k);
    }
}

pub proof fn lemma_push_contains(s: Seq<Seq<char>>, v: Seq<char>)
    ensures
        forall|x: Seq<char>| #[trigger] s.push(v).contains(x) <==> (s.contains(x) || x == v),
        s.no_duplicates() && !s.contains(v) ==> s.push(v).no_duplicates(),
{
    assert forall|x: Seq<char>| #[trigger] s.push(v).contains(x) <==> (s.contains(x) || x == v) by {
        if s.contains(x) {
            let t = choose|t: int| 0 <= t < s.len() && s[t] == x;
            assert(s.push(v)[t] == x);
        }
        if x == v {
            assert(s.push(v)[s.len() as int] == x);
        }
        if s.push(v).contains(x) {
            let t = choose|t: int| 0 <= t < s.push(v).len() && s.push(v)[t] == x;
            if t < s.len() {
                assert(s[t] == x);
            }
        }
    }
    if s.no_duplicates() && !s.contains(v) {
        assert forall|a: int, b: int| 0 <= a < s.push(v).len() && 0 <= b < s.push(v).len() && a != b
            implies s.push(v)[a] != s.push(v)[b] by {
            if a < s.len() && b < s.len() {
            } else if a < s.len() {
                assert(s.contains(s[a]));
            } else if b < s.len() {
                assert(s.contains(s[b]));
            }
        }
    }
}

/// The keys of a session's own messages (`source_message_keys`), without
/// repeats.
pub fn source_message_keys(messages: &Vec<InboundMessage>) -> (r: Vec<String>)
    ensures
        keys_view(r@).no_duplicates(),
        forall|k: Seq<char>| #[trigger] keys_view(r@).contains(k) <==> key_among(messages@, messages.len() as int, k),
{
    let mut out: Vec<String> = Vec::new();
    let mut i: usize = 0;
    while i < messages.len()
        invariant
            0 <= i <= messages.len(),
            keys_view(out@).no_duplicates(),
            forall|k: Seq<char>| #[trigger] keys_view(out@).contains(k) <==> key_among(messages@, i as int, k),
        decreases messages.len() - i,
    {
        let ghost before = out@;
        let ghost kb = keys_view(before);
        match inbound_message_key(&messages[i]) {
            Some(k) => {
                let ghost kv = k@;
                insert_key(&mut out, k);
                proof {
                    if !kb.contains(kv) {
                        assert(keys_view(out@) =~= kb.push(kv));
                        lemma_push_contains(kb, kv);
                    }
                    assert forall|x: Seq<char>| #[trigger] keys_view(out@).contains(x) <==> (kb.contains(x) || x == kv) by {}
                    assert forall|x: Seq<char>| #[trigger] key_among(messages@, i + 1, x)
                        <==> (key_among(messages@, i as int, x) || x == kv) by {
                        if x == kv {
                            assert(message_key(messages@[i as int]) == Some(x));
                        }
                    }
                }
            },
            None => {
                proof {
                    assert forall|x: Seq<char>| #[trigger] key_among(messages@, i + 1, x)
                        <==> key_among(messages@, i as int, x) by {
                        if key_among(messages@, i + 1, x) {
                            let j = choose|j: int| 0 <= j < i + 1 && message_key(#[trigger] messages@[j]) == Some(x);
                            assert(j < i);
                        }
                    }
                }
            },
        }
        i = i + 1;
    }
    out
}


/// What a session keeps track of while it runs.
pub struct SessionState {
    pub responded: bool,
    pub attempted_send: bool,
    pub composing_released: bool,
    /// The thoughts the session noted, in order.
    pub thoughts: Vec<crate::model::Thought>,
    pub memories_formed: Vec<String>,
    pub recalled_memory_ids: Vec<String>,
    pub injected_messages: Vec<InboundMessage>,
    pub presented_injected_messages: Vec<InboundMessage>,
    pub presented_read_messages: Vec<InboundMessage>,
    pub pending_injected_messages: Vec<InboundMessage>,
    pub source_message_keys: Vec<String>,
    pub queued_injected_message_keys: Vec<String>,
    pub presented_injected_message_keys: Vec<String>,
    pub applied_review_keys: Vec<String>,
    pub presented_injection_count: usize,
}

impl SessionState {
    /// A fresh state for a session over the given messages.
    pub fn new(messages: &Vec<InboundMessage>) -> (r: SessionState)
        ensures
            !r.responded && !r.attempted_send && !r.composing_released,
            r.thoughts@.len() == 0,
            r.memories_formed@.len() == 0 && r.recalled_memory_ids@.len() == 0,
            r.injected_messages@.len() == 0 && r.presented_injected_messages@.len() == 0,
            r.presented_read_messages@.len() == 0 && r.pending_injected_messages@.len() == 0,
            forall|k: Seq<char>| #[trigger] keys_view(r.source_message_keys@).contains(k) <==> key_among(messages@, messages.len() as int, k),
            keys_view(r.source_message_keys@).no_duplicates(),
            r.queued_injected_message_keys@.len() == 0,
            r.presented_injected_message_keys@.len() == 0,
            r.applied_review_keys@.len() == 0,
            r.presented_injection_count == 0,
    {
        SessionState {
            responded: false,
            attempted_send: false,
            composing_released: false,
            thoughts: Vec::new(),
            memories_formed: Vec::new(),
            recalled_memory_ids: Vec::new(),
            injected_messages: Vec::new(),
            presented_injected_messages: Vec::new(),
            presented_read_messages: Vec::new(),
            pending_injected_messages: Vec::new(),
            source_message_keys: source_message_keys(messages),
            queued_injected_message_keys: Vec::new(),
            presented_injected_message_keys: Vec::new(),
            applied_review_keys: Vec::new(),
            presented_injection_count: 0,
        }
    }
}

/// A message with this key was already seen: it is one of the session's own
/// messages or already queued.
pub open spec fn already_seen(st: SessionState, m: InboundMessage) -> bool {
    match message_key(m) {
        Some(k) => keys_view(st.source_message_keys@).contains(k) || keys_view(st.queued_injected_message_keys@).contains(k),
        None => false,
    }
}

/// Queues a message that arrived mid-session unless a message with its key
/// was already seen; returns whether it was queued.
pub fn remember_injected_message(state: &mut SessionState, msg: InboundMessage) -> (r: bool)
    ensures
        r == !already_seen(*old(state), msg),
        !r ==> *final(state) == *old(state),
        r ==> final(state).pending_injected_messages@ == old(state).pending_injected_messages@.push(msg),
        r ==> final(state).injected_messages@.len() == old(state).injected_messages@.len() + 1,
        r ==> final(state).injected_messages@.drop_last() == old(state).injected_messages@,
        r ==> same_message(final(state).injected_messages@.last(), msg),
        r ==> keys_view(final(state).queued_injected_message_keys@) == match message_key(msg) {
            Some(k) => keys_view(old(state).queued_injected_message_keys@).push(k),
            None => keys_view(old(state).queued_injected_message_keys@),
        },
        final(state).source_message_keys@ == old(state).source_message_keys@,
        final(state).presented_injected_message_keys@ == old(state).presented_injected_message_keys@,
        final(state).presented_injected_messages@ == old(state).presented_injected_messages@,
        final(state).presented_injection_count == old(state).presented_injection_count,
{
    if let Some(key) = inbound_message_key(&msg) {
        if holds_key(&state.source_message_keys, &key) || holds_key(&state.queued_injected_message_keys, &key) {
            return false;
        }
        let ghost kv = key@;
        state.queued_injected_message_keys.push(key);
        assert(keys_view(state.queued_injected_message_keys@) =~= keys_view(old(state).queued_injected_message_keys@).push(kv));
    }
    let copy = msg.duplicate();
    state.pending_injected_messages.push(msg);
    state.injected_messages.push(copy);
    assert(state.injected_messages@.drop_last() =~= old(state).injected_messages@);
    true
}

/// Adds a key, when there is one, to a key set.
pub open spec fn add_key(keys: Seq<Seq<char>>, k: Option<Seq<char>>) -> Seq<Seq<char>> {
    match k {
        Some(k) => if keys.contains(k) {
            keys
        } else {
            keys.push(k)
        },
        None => keys,
    }
}

/// A pending message is shown unless its key is one of the session's own or
/// already presented.
pub open spec fn presentable(m: InboundMessage, source: Seq<Seq<char>>, presented: Seq<Seq<char>>) -> bool {
    match message_key(m) {
        Some(k) => !source.contains(k) && !presented.contains(k),
        None => true,
    }
}

/// The pending messages that get presented, in order.
pub open spec fn presented_of(pending: Seq<InboundMessage>, source: Seq<Seq<char>>, presented: Seq<Seq<char>>) -> Seq<InboundMessage>
    decreases pending.len(),
{
    if pending.len() == 0 {
        Seq::empty()
    } else if presentable(pending[0], source, presented) {
        seq![pending[0]] + presented_of(pending.drop_first(), source, add_key(presented, message_key(pending[0])))
    } else {
        presented_of(pending.drop_first(), source, presented)
    }
}

/// The presented-key set after presenting the pending messages.
pub open spec fn presented_keys_after(pending: Seq<InboundMessage>, source: Seq<Seq<char>>, presented: Seq<Seq<char>>) -> Seq<Seq<char>>
    decreases pending.len(),
{
    if pending.len() == 0 {
        presented
    } else if presentable(pending[0], source, presented) {
        presented_keys_after(pending.drop_first(), source, add_key(presented, message_key(pending[0])))
    } else {
        presented_keys_after(pending.drop_first(), source, presented)
    }
}

fn has_message_key(messages: &Vec<InboundMessage>, k: &String) -> (r: bool)
    ensures
        r == exists|j: int| 0 <= j < messages.len() && message_key(#[trigger] messages@[j]) == Some(k@),
{
    let mut i: usize = 0;
    while i < messages.len()
        invariant
            0 <= i <= messages.len(),
            forall|j: int| 0 <= j < i ==> message_key(#[trigger] messages@[j]) != Some(k@),
        decreases messages.len() - i,
    {
        match inbound_message_key(&messages[i]) {
            Some(x) => {
                if x == *k {
                    return true;
                }
            },
            None => {},
        }
        i = i + 1;
    }
    false
}

/// Moves the pending messages into the presented list, skipping any whose
/// key is one of the session's own or was already presented, and returns
/// how many were presented. The presented ones are the last entries of
/// `presented_injected_messages`; the caller shows them to the model and
/// records them.
pub fn present_pending_messages(state: &mut SessionState) -> (r: usize)
    requires
        old(state).presented_injection_count + old(state).pending_injected_messages@.len() <= usize::MAX,
    ensures
        final(state).pending_injected_messages@.len() == 0,
        final(state).presented_injected_messages@ == old(state).presented_injected_messages@ + presented_of(
            old(state).pending_injected_messages@,
            keys_view(old(state).source_message_keys@),
            keys_view(old(state).presented_injected_message_keys@),
        ),
        r == presented_of(
            old(state).pending_injected_messages@,
            keys_view(old(state).source_message_keys@),
            keys_view(old(state).presented_injected_message_keys@),
        ).len(),
        keys_view(final(state).presented_injected_message_keys@) == presented_keys_after(
            old(state).pending_injected_messages@,
            keys_view(old(state).source_message_keys@),
            keys_view(old(state).presented_injected_message_keys@),
        ),
        final(state).presented_injection_count == old(state).presented_injection_count + r,
        final(state).source_message_keys@ == old(state).source_message_keys@,
        final(state).injected_messages@.len() >= old(state).injected_messages@.len(),
        final(state).injected_messages@.take(old(state).injected_messages@.len() as int) == old(state).injected_messages@,
{
    let mut pending: Vec<InboundMessage> = Vec::new();
    std::mem::swap(&mut pending, &mut state.pending_injected_messages);
    let ghost all = pending@;
    let ghost source = keys_view(state.source_message_keys@);
    let ghost presented0 = keys_view(state.presented_injected_message_keys@);
    let ghost old_presented = state.presented_injected_messages@;
    let ghost old_injected = state.injected_messages@;
    let ghost old_count = state.presented_injection_count;
    let ghost old_source = state.source_message_keys@;
    let mut shown: usize = 0;
    let ghost mut i: int = 0;
    assert(all.skip(0) =~= all);
    assert(all.take(0) =~= Seq::<InboundMessage>::empty());
    assert(old_presented + Seq::<InboundMessage>::empty() =~= old_presented);
    while pending.len() > 0
        invariant
            0 <= i <= all.len(),
            pending@ == all.skip(i),
            source == keys_view(state.source_message_keys@),
            old_source == state.source_message_keys@,
            state.pending_injected_messages@.len() == 0,
            old_count + all.len() <= usize::MAX,
            shown <= i,
            state.presented_injection_count == old_count + shown,
            keys_view(state.presented_injected_message_keys@) == presented_keys_after(all.take(i), source, presented0),
            state.presented_injected_messages@ == old_presented + presented_of(all.take(i), source, presented0),
            shown == presented_of(all.take(i), source, presented0).len(),
            state.injected_messages@.len() >= old_injected.len(),
            state.injected_messages@.take(old_injected.len() as int) == old_injected,
        decreases pending.len(),
    {
        let ghost pk = keys_view(state.presented_injected_message_keys@);
        let msg = pending.remove(0);
        proof {
            assert(all.take(i + 1) =~= all.take(i) + seq![all[i]]);
            lemma_presented_split(all.take(i), seq![all[i]], source, presented0);
            assert(all.skip(i + 1) =~= all.skip(i).drop_first());
            assert(msg == all[i]);
            assert(presented_of(seq![all[i]], source, pk) == if presentable(all[i], source, pk) {
                seq![all[i]]
            } else {
                Seq::<InboundMessage>::empty()
            }) by {
                assert(seq![all[i]].drop_first() =~= Seq::<InboundMessage>::empty());
                assert(seq![all[i]][0] == all[i]);
                let e = Seq::<InboundMessage>::empty();
                assert(presented_of(e, source, add_key(pk, message_key(all[i]))) == e);
                assert(presented_of(e, source, pk) == e);
                assert(seq![all[i]] + e =~= seq![all[i]]);
            }
            assert(presented_keys_after(seq![all[i]], source, pk) == if presentable(all[i], source, pk) {
                add_key(pk, message_key(all[i]))
            } else {
                pk
            }) by {
                assert(seq![all[i]].drop_first() =~= Seq::<InboundMessage>::empty());
                assert(seq![all[i]][0] == all[i]);
                let e = Seq::<InboundMessage>::empty();
                assert(presented_keys_after(e, source, add_key(pk, message_key(all[i]))) == add_key(pk, message_key(all[i])));
                assert(presented_keys_after(e, source, pk) == pk);
            }
        }
        let key = inbound_message_key(&msg);
        let suppressed = match &key {
            Some(k) => holds_key(&state.source_message_keys, k) || holds_key(&state.presented_injected_message_keys, k),
            None => false,
        };
        if suppressed {
            proof {
                i = i + 1;
                assert(presented_of(all.take(i - 1), source, presented0) + Seq::<InboundMessage>::empty() =~= presented_of(all.take(i - 1), source, presented0));
            }
            continue;
        }
        if let Some(k) = &key {
            insert_key(&mut state.queued_injected_message_keys, k.clone());
        }
        let add_to_injected = match &key {
            Some(k) => !has_message_key(&state.injected_messages, k),
            None => true,
        };
        if add_to_injected {
            let ghost before = state.injected_messages@;
            state.injected_messages.push(msg.duplicate());
            assert(state.injected_messages@.take(old_injected.len() as int) =~= before.take(old_injected.len() as int));
        }
        if let Some(k) = key {
            let ghost kk = k@;
            insert_key(&mut state.presented_injected_message_keys, k);
            proof {
                if !pk.contains(kk) {
                    assert(keys_view(state.presented_injected_message_keys@) =~= pk.push(kk));
                }
            }
        }
        let ghost before_presented = state.presented_injected_messages@;
        state.presented_injected_messages.push(msg);
        state.presented_injection_count = state.presented_injection_count + 1;
        shown = shown + 1;
        proof {
            i = i + 1;
            assert(state.presented_injected_messages@ =~= old_presented + presented_of(all.take(i), source, presented0));
        }
    }
    assert(all.take(all.len() as int) =~= all);
    shown
}

/// Presenting `a` then `b` is presenting `a + b`.
pub proof fn lemma_presented_split(a: Seq<InboundMessage>, b: Seq<InboundMessage>, source: Seq<Seq<char>>, presented: Seq<Seq<char>>)
    ensures
        presented_of(a + b, source, presented) == presented_of(a, source, presented) + presented_of(
            b,
            source,
            presented_keys_after(a, source, presented),
        ),
        presented_keys_after(a + b, source, presented) == presented_keys_after(
            b,
            source,
            presented_keys_after(a, source, presented),
        ),
    decreases a.len(),
{
    if a.len() == 0 {
        assert(a + b =~= b);
        assert(Seq::<InboundMessage>::empty() + presented_of(b, source, presented) =~= presented_of(b, source, presented));
    } else {
        assert((a + b).drop_first() =~= a.drop_first() + b);
        assert((a + b)[0] == a[0]);
        if presentable(a[0], source, presented) {
            let p2 = add_key(presented, message_key(a[0]));
            lemma_presented_split(a.drop_first(), b, source, p2);
            assert(seq![a[0]] + presented_of(a.drop_first() + b, source, p2) =~= seq![a[0]] + presented_of(
                a.drop_first(),
                source,
                p2,
            ) + presented_of(b, source, presented_keys_after(a.drop_first(), source, p2)));
        } else {
            lemma_presented_split(a.drop_first(), b, source, presented);
        }
    }
}


/// No message is presented whose key is one of the session's own or was
/// presented before, and no key is presented twice: a source message reaches
/// the model at most once.
pub proof fn lemma_presented_at_most_once(
    pending: Seq<InboundMessage>,
    source: Seq<Seq<char>>,
    presented: Seq<Seq<char>>,
)
    ensures
        forall|i: int| 0 <= i < presented_of(pending, source, presented).len() ==> match message_key(
            #[trigger] presented_of(pending, source, presented)[i],
        ) {
            Some(k) => !source.contains(k) && !presented.contains(k),
            None => true,
        },
        forall|i: int, j: int|
            0 <= i < j < presented_of(pending, source, presented).len() && (message_key(
                #[trigger] presented_of(pending, source, presented)[i],
            ) is Some) ==> message_key(presented_of(pending, source, presented)[i]) != message_key(
                #[trigger] presented_of(pending, source, presented)[j],
            ),
    decreases pending.len(),
{
    if pending.len() > 0 {
        let m = pending[0];
        if presentable(m, source, presented) {
            let p2 = add_key(presented, message_key(m));
            lemma_presented_at_most_once(pending.drop_first(), source, p2);
            let tail = presented_of(pending.drop_first(), source, p2);
            let res = presented_of(pending, source, presented);
            assert(res == seq![m] + tail);
            assert forall|x: Seq<char>| presented.contains(x) implies p2.contains(x) by {
                match message_key(m) {
                    Some(k) => if !presented.contains(k) {
                        let t = choose|t: int| 0 <= t < presented.len() && presented[t] == x;
                        assert(p2[t] == x);
                    },
                    None => {},
                }
            }
            match message_key(m) {
                Some(k) => {
                    assert(p2.contains(k)) by {
                        if !presented.contains(k) {
                            assert(p2[presented.len() as int] == k);
                        }
                    }
                },
                None => {},
            }
            assert forall|i: int| 0 <= i < res.len() implies match message_key(#[trigger] res[i]) {
                Some(k) => !source.contains(k) && !presented.contains(k),
                None => true,
            } by {
                if i > 0 {
                    assert(res[i] == tail[i - 1]);
                }
            }
            assert forall|i: int, j: int| 0 <= i < j < res.len() && (message_key(#[trigger] res[i]) is Some)
                implies message_key(res[i]) != message_key(#[trigger] res[j]) by {
                assert(res[j] == tail[j - 1]);
                if i > 0 {
                    assert(res[i] == tail[i - 1]);
                } else {
                    assert(res[0] == m);
                }
            }
        } else {
            lemma_presented_at_most_once(pending.drop_first(), source, presented);
        }
    }
}


/// Once a message is queued, any later message with the same gateway and
/// message id is refused, whatever its text.
pub proof fn lemma_queued_key_refuses_repeats(before: SessionState, after: SessionState, m: InboundMessage, again: InboundMessage)
    requires
        !already_seen(before, m),
        message_key(m) is Some,
        keys_view(after.queued_injected_message_keys@) == keys_view(before.queued_injected_message_keys@).push(
            message_key(m)->0,
        ),
        after.source_message_keys@ == before.source_message_keys@,
        again.gateway_id@ == m.gateway_id@,
        again.message_id@ == m.message_id@,
    ensures
        already_seen(after, again),
{
    let k = message_key(m)->0;
    assert(keys_view(after.queued_injected_message_keys@)[keys_view(before.queued_injected_message_keys@).len() as int] == k);
}

/// A message without a gateway or message id is never taken for a repeat.
pub proof fn lemma_unkeyed_message_is_never_a_repeat(st: SessionState, m: InboundMessage)
    requires
        m.gateway_id@.len() == 0 || m.message_id@.len() == 0,
    ensures
        !already_seen(st, m),
{
}

} // verus!
