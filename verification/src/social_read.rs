//! Plain-language context about timing, relations, memories and open loops
//! that goes into the prompt.
use vstd::prelude::*;
use crate::json::Json;
use crate::model::{ActionKind, Authority, InboundMessage, SessionKind};
use crate::session::keys_view;
use crate::social_path::RelationStatus;
use crate::text::{
    append_str, chars_of, join, joined, owned, push_char, string_of_range, trim, trim_seq, truncated,
};

verus! {

pub open spec fn digit_char(d: int) -> char {
    if d == 0 { '0' } else if d == 1 { '1' } else if d == 2 { '2' } else if d == 3 { '3' }
    else if d == 4 { '4' } else if d == 5 { '5' } else if d == 6 { '6' } else if d == 7 { '7' }
    else if d == 8 { '8' } else { '9' }
}

/// Decimal digits of a natural number.
pub open spec fn decimal(n: nat) -> Seq<char>
    decreases n,
{
    if n < 10 {
        seq![digit_char(n as int)]
    } else {
        decimal(n / 10).push(digit_char((n % 10) as int))
    }
}

fn digit(d: u64) -> (r: char)
    requires
        d < 10,
    ensures
        r == digit_char(d as int),
{
    if d == 0 { '0' } else if d == 1 { '1' } else if d == 2 { '2' } else if d == 3 { '3' }
    else if d == 4 { '4' } else if d == 5 { '5' } else if d == 6 { '6' } else if d == 7 { '7' }
    else if d == 8 { '8' } else { '9' }
}

/// Appends the decimal digits of `n` (`format!("{n}")`).
pub fn push_decimal(out: &mut String, n: u64)
    ensures
        final(out)@ == old(out)@ + decimal(n as nat),
    decreases n,
{
    if n < 10 {
        push_char(out, digit(n));
        assert(old(out)@.push(digit_char(n as int)) =~= old(out)@ + decimal(n as nat));
    } else {
        push_decimal(out, n / 10);
        push_char(out, digit(n % 10));
        assert(old(out)@ + decimal((n / 10) as nat) + seq![digit_char((n % 10) as int)] =~= old(out)@
            + decimal(n as nat));
    }
}

/// A count with its unit: the singular form for one, else `"{n} {plural}"`.
pub open spec fn count_words(n: int, one: Seq<char>, plural: Seq<char>) -> Seq<char> {
    if n == 1 {
        one
    } else {
        decimal(n as nat) + plural
    }
}

/// How long a span of seconds is, in the largest whole unit.
pub open spec fn duration_text(secs: int) -> Seq<char> {
    if secs < 60 {
        "less than 1 minute"@
    } else if secs < 3600 {
        count_words(secs / 60, "1 minute"@, " minutes"@)
    } else if secs < 86400 {
        count_words(secs / 3600, "1 hour"@, " hours"@)
    } else if secs < 604800 {
        count_words(secs / 86400, "1 day"@, " days"@)
    } else if secs < 2592000 {
        count_words(secs / 604800, "1 week"@, " weeks"@)
    } else if secs < 31536000 {
        count_words(secs / 2592000, "1 month"@, " months"@)
    } else {
        count_words(secs / 31536000, "1 year"@, " years"@)
    }
}

fn count_words_exec(n: u64, one: &str, plural: &str) -> (r: String)
    ensures
        r@ == count_words(n as int, one@, plural@),
{
    if n == 1 {
        owned(one)
    } else {
        let mut s = String::new();
        push_decimal(&mut s, n);
        append_str(&mut s, plural);
        assert(Seq::<char>::empty() + decimal(n as nat) =~= decimal(n as nat));
        s
    }
}

/// `duration_words`.
pub fn duration_words(secs: i64) -> (r: String)
    ensures
        r@ == duration_text(secs as int),
{
    if secs < 60 {
        owned("less than 1 minute")
    } else if secs < 3600 {
        count_words_exec((secs / 60) as u64, "1 minute", " minutes")
    } else if secs < 86400 {
        count_words_exec((secs / 3600) as u64, "1 hour", " hours")
    } else if secs < 604800 {
        count_words_exec((secs / 86400) as u64, "1 day", " days")
    } else if secs < 2592000 {
        count_words_exec((secs / 604800) as u64, "1 week", " weeks")
    } else if secs < 31536000 {
        count_words_exec((secs / 2592000) as u64, "1 month", " months")
    } else {
        count_words_exec((secs / 31536000) as u64, "1 year", " years")
    }
}

/// How long ago `from` was, seen at `to`.
pub open spec fn relative_text(from: int, to: int) -> Seq<char> {
    let secs = if to - from > 0 {
        to - from
    } else {
        0
    };
    if secs < 60 {
        "just now"@
    } else if secs < 3600 {
        count_words(secs / 60, "1 minute ago"@, " minutes ago"@)
    } else if secs < 86400 {
        count_words(secs / 3600, "1 hour ago"@, " hours ago"@)
    } else if secs < 604800 {
        count_words(secs / 86400, "1 day ago"@, " days ago"@)
    } else if secs < 2592000 {
        count_words(secs / 604800, "1 week ago"@, " weeks ago"@)
    } else if secs < 31536000 {
        count_words(secs / 2592000, "1 month ago"@, " months ago"@)
    } else {
        count_words(secs / 31536000, "1 year ago"@, " years ago"@)
    }
}

/// `relative_duration`.
pub fn relative_duration(from: i64, to: i64) -> (r: String)
    requires
        i64::MIN <= to - from <= i64::MAX,
    ensures
        r@ == relative_text(from as int, to as int),
{
    let d = to - from;
    let secs: i64 = if d > 0 {
        d
    } else {
        0
    };
    if secs < 60 {
        owned("just now")
    } else if secs < 3600 {
        count_words_exec((secs / 60) as u64, "1 minute ago", " minutes ago")
    } else if secs < 86400 {
        count_words_exec((secs / 3600) as u64, "1 hour ago", " hours ago")
    } else if secs < 604800 {
        count_words_exec((secs / 86400) as u64, "1 day ago", " days ago")
    } else if secs < 2592000 {
        count_words_exec((secs / 604800) as u64, "1 week ago", " weeks ago")
    } else if secs < 31536000 {
        count_words_exec((secs / 2592000) as u64, "1 month ago", " months ago")
    } else {
        count_words_exec((secs / 31536000) as u64, "1 year ago", " years ago")
    }
}

/// When an intent fires, relative to now.
pub open spec fn due_text(fire_at: int, now: int) -> Seq<char> {
    if fire_at <= now {
        if now - fire_at < 60 {
            "due now"@
        } else {
            "overdue by "@ + duration_text(now - fire_at)
        }
    } else {
        "in "@ + duration_text(fire_at - now)
    }
}

/// `describe_due_time`.
pub fn describe_due_time(fire_at: i64, now: i64) -> (r: String)
    requires
        i64::MIN <= now - fire_at <= i64::MAX,
        i64::MIN <= fire_at - now <= i64::MAX,
    ensures
        r@ == due_text(fire_at as int, now as int),
{
    if fire_at <= now {
        let secs = now - fire_at;
        if secs < 60 {
            owned("due now")
        } else {
            let mut s = owned("overdue by ");
            let w = duration_words(secs);
            append_str(&mut s, w.as_str());
            s
        }
    } else {
        let mut s = owned("in ");
        let w = duration_words(fire_at - now);
        append_str(&mut s, w.as_str());
        s
    }
}

/// When an open loop is due, as `open_loop_ctx` shows it: nothing for a loop
/// without a time.
pub fn open_loop_due(fire_at: Option<i64>, now: i64) -> (r: Option<String>)
    requires
        match fire_at {
            Some(f) => i64::MIN <= now - f <= i64::MAX && i64::MIN <= f - now <= i64::MAX,
            None => true,
        },
    ensures
        match fire_at {
            Some(f) => r is Some && r->0@ == due_text(f as int, now as int),
            None => r is None,
        },
{
    match fire_at {
        Some(f) => Some(describe_due_time(f, now)),
        None => None,
    }
}

/// The safety notes a prompt carries for the session's authority and kind.
pub struct SafetyCtx {
    pub authority: Authority,
    pub sensitive_memory_access: &'static str,
    pub proactive_outreach: &'static str,
    pub third_party_outreach: &'static str,
}

/// `build_safety_ctx`: sensitive recall is open to the chosen person and to
/// review and consolidation; outreach sessions are reminded of their guards.
pub fn build_safety_ctx(authority: Authority, kind: SessionKind) -> (r: SafetyCtx)
    ensures
        r.authority == authority,
        r.sensitive_memory_access@ == if authority == Authority::ChosenPerson || kind == SessionKind::Action(
            ActionKind::Review,
        ) || kind == SessionKind::Action(ActionKind::Consolidate) {
            "sensitive recall allowed only when directly relevant; logs and transcripts are redacted"@
        } else {
            "conservative recall only; private or sensitive details require owner authority or review context"@
        },
        r.proactive_outreach@ == if kind == SessionKind::Action(ActionKind::Outreach) {
            "active outreach; obey consent, quiet hours, stale conversation, unanswered outreach, and gateway availability guards"@
        } else {
            "create or update proactive intents only when target, consent, timing, and owner-approval rules allow it"@
        },
        r.third_party_outreach@ == if authority == Authority::ChosenPerson {
            "owner can approve third-party outreach, but verified target and consent/timing guards still apply"@
        } else {
            "third-party outreach requires a verified active target; sensitive third-party outreach requires owner approval"@
        },
{
    let sensitive = authority == Authority::ChosenPerson || match kind {
        SessionKind::Action(ActionKind::Review) => true,
        SessionKind::Action(ActionKind::Consolidate) => true,
        _ => false,
    };
    let sensitive_memory_access = if sensitive {
        "sensitive recall allowed only when directly relevant; logs and transcripts are redacted"
    } else {
        "conservative recall only; private or sensitive details require owner authority or review context"
    };
    let proactive_outreach = match kind {
        SessionKind::Action(ActionKind::Outreach) => "active outreach; obey consent, quiet hours, stale conversation, unanswered outreach, and gateway availability guards",
        _ => "create or update proactive intents only when target, consent, timing, and owner-approval rules allow it",
    };
    let third_party_outreach = if authority == Authority::ChosenPerson {
        "owner can approve third-party outreach, but verified target and consent/timing guards still apply"
    } else {
        "third-party outreach requires a verified active target; sensitive third-party outreach requires owner approval"
    };
    SafetyCtx { authority, sensitive_memory_access, proactive_outreach, third_party_outreach }
}

/// The trimmed, non-empty texts, in order.
pub open spec fn nonblank_texts(texts: Seq<Seq<char>>) -> Seq<Seq<char>>
    decreases texts.len(),
{
    if texts.len() == 0 {
        Seq::empty()
    } else {
        let rest = nonblank_texts(texts.drop_last());
        if trim_seq(texts.last()).len() > 0 {
            rest.push(trim_seq(texts.last()))
        } else {
            rest
        }
    }
}

pub open spec fn contents_of(ms: Seq<InboundMessage>) -> Seq<Seq<char>> {
    ms.map_values(|m: InboundMessage| m.content@)
}

/// The text a memory pack searches with: the messages' texts then the extra
/// ones, trimmed, one per line, cut to 512 characters; none when empty.
pub open spec fn pack_query(ms: Seq<InboundMessage>, extra: Seq<Seq<char>>) -> Option<Seq<char>> {
    let q = joined(nonblank_texts(contents_of(ms)) + nonblank_texts(extra), "\n"@);
    if q.len() == 0 {
        None
    } else {
        Some(q.take(if q.len() < 512 { q.len() as int } else { 512 }))
    }
}

fn push_nonblank(out: &mut Vec<String>, text: &str)
    ensures
        keys_view(final(out)@) == if trim_seq(text@).len() > 0 {
            keys_view(old(out)@).push(trim_seq(text@))
        } else {
            keys_view(old(out)@)
        },
{
    let t = trim(text);
    if !t.as_str().is_empty() {
        let ghost before = out@;
        let ghost tv = t@;
        out.push(t);
        assert(keys_view(out@) =~= keys_view(before).push(tv));
    }
}

/// `memory_pack_query`.
pub fn memory_pack_query(messages: &Vec<InboundMessage>, extra: &Vec<String>) -> (r: Option<String>)
    ensures
        match r {
            Some(q) => pack_query(messages@, keys_view(extra@)) == Some(q@),
            None => pack_query(messages@, keys_view(extra@)) is None,
        },
{
    let mut texts: Vec<String> = Vec::new();
    let mut i: usize = 0;
    while i < messages.len()
        invariant
            0 <= i <= messages.len(),
            keys_view(texts@) == nonblank_texts(contents_of(messages@).take(i as int)),
        decreases messages.len() - i,
    {
        assert(contents_of(messages@).take(i + 1).drop_last() =~= contents_of(messages@).take(i as int));
        assert(contents_of(messages@).take(i + 1).last() == messages@[i as int].content@);
        push_nonblank(&mut texts, messages[i].content.as_str());
        i = i + 1;
    }
    assert(contents_of(messages@).take(messages.len() as int) =~= contents_of(messages@));
    let ghost first = keys_view(texts@);
    let mut j: usize = 0;
    while j < extra.len()
        invariant
            0 <= j <= extra.len(),
            first == nonblank_texts(contents_of(messages@)),
            keys_view(texts@) == first + nonblank_texts(keys_view(extra@).take(j as int)),
        decreases extra.len() - j,
    {
        assert(keys_view(extra@).take(j + 1).drop_last() =~= keys_view(extra@).take(j as int));
        assert(keys_view(extra@).take(j + 1).last() == extra@[j as int]@);
        let ghost before = keys_view(texts@);
        push_nonblank(&mut texts, extra[j].as_str());
        assert(keys_view(texts@) =~= first + nonblank_texts(keys_view(extra@).take(j + 1)));
        j = j + 1;
    }
    assert(keys_view(extra@).take(extra.len() as int) =~= keys_view(extra@));
    let q = join(&texts, "\n");
    assert(keys_view(texts@) =~= texts@.map_values(|s: String| s@));
    let cs = chars_of(q.as_str());
    if cs.len() == 0 {
        None
    } else {
        let n = if cs.len() < 512 {
            cs.len()
        } else {
            512
        };
        let out = string_of_range(&cs, 0, n);
        assert(cs@.subrange(0, n as int) =~= q@.take(n as int));
        Some(out)
    }
}

/// `truncate_prompt_value`: at most `max` characters, `...` marking a cut.
pub fn truncate_prompt_value(value: &str, max: usize) -> (r: String)
    ensures
        r@ == truncated(value@, max as int),
{
    crate::text::truncate(value, max)
}

/// The first three trimmed, non-empty string ids of an evidence list.
pub open spec fn first_ids(items: Seq<Json>) -> Seq<Seq<char>> {
    let all = crate::memory::string_items(items);
    all.take(if all.len() < 3 { all.len() as int } else { 3 })
}

/// `relation_evidence_summary`: a quote, else up to three message ids, else
/// one message id, else a reason (its own or the nested evidence's).
pub open spec fn evidence_summary(evidence: Option<Json>) -> Option<Seq<char>> {
    match evidence {
        None => None,
        Some(e) => {
            let quote = match e.str_at("quote"@) {
                Some(q) => trim_seq(q),
                None => Seq::empty(),
            };
            let ids = match e.array_at("message_ids"@) {
                Some(items) => first_ids(items),
                None => Seq::empty(),
            };
            let id = match e.str_at("message_id"@) {
                Some(q) => trim_seq(q),
                None => Seq::empty(),
            };
            let reason_source = match e.field("reason"@) {
                Some(r) => Some(r),
                None => match e.field("evidence"@) {
                    Some(inner) => inner.field("reason"@),
                    None => None,
                },
            };
            let reason = match reason_source {
                Some(Json::Str(r)) => trim_seq(r@),
                _ => Seq::empty(),
            };
            if quote.len() > 0 {
                Some("quote: "@ + truncated(quote, 120))
            } else if ids.len() > 0 {
                Some("messages "@ + joined(ids, ", "@))
            } else if id.len() > 0 {
                Some("message "@ + id)
            } else if reason.len() > 0 {
                Some("reason: "@ + truncated(reason, 120))
            } else {
                None
            }
        },
    }
}

fn trimmed_str(e: &Json, key: &str) -> (r: String)
    ensures
        r@ == match e.str_at(key@) {
            Some(q) => trim_seq(q),
            None => Seq::empty(),
        },
{
    match e.str_field(key) {
        Some(q) => trim(q.as_str()),
        None => String::new(),
    }
}

pub fn relation_evidence_summary(evidence: Option<&Json>) -> (r: Option<String>)
    ensures
        match r {
            Some(s) => evidence_summary(match evidence {
                Some(e) => Some(*e),
                None => None,
            }) == Some(s@),
            None => evidence_summary(match evidence {
                Some(e) => Some(*e),
                None => None,
            }) is None,
        },
{
    let e = match evidence {
        Some(e) => e,
        None => {
            return None;
        },
    };
    let quote = trimmed_str(e, "quote");
    if !quote.as_str().is_empty() {
        let mut out = owned("quote: ");
        let t = truncate_prompt_value(quote.as_str(), 120);
        append_str(&mut out, t.as_str());
        return Some(out);
    }
    let all = crate::memory::string_array(e, "message_ids");
    if all.len() > 0 {
        let n = if all.len() < 3 {
            all.len()
        } else {
            3
        };
        let mut ids: Vec<String> = Vec::new();
        let mut i: usize = 0;
        while i < n
            invariant
                0 <= i <= n <= all@.len(),
                ids@ == all@.take(i as int),
            decreases n - i,
        {
            ids.push(all[i].clone());
            assert(ids@ =~= all@.take(i + 1));
            i = i + 1;
        }
        let mut out = owned("messages ");
        let list = join(&ids, ", ");
        append_str(&mut out, list.as_str());
        proof {
            let items = e.array_at("message_ids"@)->0;
            assert(keys_view(all@) == crate::memory::string_items(items));
            assert(ids@.map_values(|s: String| s@) =~= first_ids(items));
        }
        return Some(out);
    }
    let id = trimmed_str(e, "message_id");
    if !id.as_str().is_empty() {
        let mut out = owned("message ");
        append_str(&mut out, id.as_str());
        return Some(out);
    }
    let source = match e.get("reason") {
        Some(r) => Some(r),
        None => match e.get("evidence") {
            Some(inner) => inner.get("reason"),
            None => None,
        },
    };
    let reason = match source {
        Some(Json::Str(r)) => trim(r.as_str()),
        _ => String::new(),
    };
    if !reason.as_str().is_empty() {
        let mut out = owned("reason: ");
        let t = truncate_prompt_value(reason.as_str(), 120);
        append_str(&mut out, t.as_str());
        Some(out)
    } else {
        None
    }
}

// ---------------------------------------------------------------------------
// Who is typing
// ---------------------------------------------------------------------------

/// A typing indicator: where, who, and since when.
pub struct TypingEntry {
    pub conversation: String,
    pub gateway_id: String,
    pub sender_external_id: String,
    pub started_at: i64,
}

/// A typing indicator as the prompt shows it.
pub struct TypingCtx {
    pub gateway_id: String,
    pub sender_external_id: String,
    pub active_for: String,
    pub is_current_sender: bool,
}

/// String order: character by character, a prefix first.
pub open spec fn text_lt(a: Seq<char>, b: Seq<char>) -> bool
    decreases a.len(),
{
    if a.len() == 0 {
        b.len() > 0
    } else if b.len() == 0 {
        false
    } else if a[0] != b[0] {
        a[0] < b[0]
    } else {
        text_lt(a.drop_first(), b.drop_first())
    }
}

fn text_less(a: &str, b: &str) -> (r: bool)
    ensures
        r == text_lt(a@, b@),
{
    let x = chars_of(a);
    let y = chars_of(b);
    let mut i: usize = 0;
    assert(x@.skip(0) =~= x@);
    assert(y@.skip(0) =~= y@);
    while i < x.len() && i < y.len() && x[i] == y[i]
        invariant
            0 <= i <= x.len(),
            i <= y.len(),
            x@ == a@,
            y@ == b@,
            text_lt(a@, b@) == text_lt(x@.skip(i as int), y@.skip(i as int)),
        decreases x.len() - i,
    {
        assert(x@.skip(i as int).drop_first() =~= x@.skip(i + 1));
        assert(y@.skip(i as int).drop_first() =~= y@.skip(i + 1));
        i = i + 1;
    }
    if i == x.len() {
        assert(x@.skip(i as int).len() == 0);
        i < y.len()
    } else if i == y.len() {
        assert(y@.skip(i as int).len() == 0);
        false
    } else {
        assert(x@.skip(i as int)[0] == x@[i as int]);
        assert(y@.skip(i as int)[0] == y@[i as int]);
        x[i] < y[i]
    }
}

/// The order of typing lines: the current sender first, then by gateway,
/// then by sender.
pub open spec fn typing_lt(a: (bool, Seq<char>, Seq<char>), b: (bool, Seq<char>, Seq<char>)) -> bool {
    (a.0 && !b.0) || (a.0 == b.0 && (text_lt(a.1, b.1) || (a.1 == b.1 && text_lt(a.2, b.2))))
}

pub open spec fn typing_key(c: TypingCtx) -> (bool, Seq<char>, Seq<char>) {
    (c.is_current_sender, c.gateway_id@, c.sender_external_id@)
}

/// `now - started_at`, saturating.
pub open spec fn elapsed_secs(now: i64, started: i64) -> int {
    let d = now - started;
    if d > i64::MAX {
        i64::MAX as int
    } else if d < i64::MIN {
        i64::MIN as int
    } else {
        d
    }
}

/// An indicator is shown when it is in the conversation (if there is one)
/// and active.
pub open spec fn typing_shown(e: TypingEntry, conversation: Option<Seq<char>>, now: i64) -> bool {
    (match conversation {
        Some(c) => e.conversation@ == c,
        None => true,
    }) && elapsed_secs(now, e.started_at) <= 10
}

/// The line of a shown indicator.
pub open spec fn typing_line(
    e: TypingEntry,
    current: Option<(Seq<char>, Seq<char>, Seq<char>)>,
    now: i64,
) -> (bool, Seq<char>, Seq<char>, Seq<char>) {
    (
        match current {
            Some((c, g, s)) => c == e.conversation@ && g == e.gateway_id@ && s == e.sender_external_id@,
            None => false,
        },
        e.gateway_id@,
        e.sender_external_id@,
        duration_text(elapsed_secs(now, e.started_at)),
    )
}

pub open spec fn line_key(l: (bool, Seq<char>, Seq<char>, Seq<char>)) -> (bool, Seq<char>, Seq<char>) {
    (l.0, l.1, l.2)
}

/// Inserts a line after every line not after it (a stable insertion).
pub open spec fn insert_line(
    s: Seq<(bool, Seq<char>, Seq<char>, Seq<char>)>,
    x: (bool, Seq<char>, Seq<char>, Seq<char>),
) -> Seq<(bool, Seq<char>, Seq<char>, Seq<char>)>
    decreases s.len(),
{
    if s.len() == 0 {
        seq![x]
    } else if typing_lt(line_key(x), line_key(s.last())) {
        insert_line(s.drop_last(), x).push(s.last())
    } else {
        s.push(x)
    }
}

/// The shown lines of the indicators, sorted stably.
pub open spec fn typing_lines(
    es: Seq<TypingEntry>,
    current: Option<(Seq<char>, Seq<char>, Seq<char>)>,
    conversation: Option<Seq<char>>,
    now: i64,
) -> Seq<(bool, Seq<char>, Seq<char>, Seq<char>)>
    decreases es.len(),
{
    if es.len() == 0 {
        Seq::empty()
    } else if typing_shown(es.last(), conversation, now) {
        insert_line(typing_lines(es.drop_last(), current, conversation, now), typing_line(es.last(), current, now))
    } else {
        typing_lines(es.drop_last(), current, conversation, now)
    }
}

pub open spec fn ctx_line(c: TypingCtx) -> (bool, Seq<char>, Seq<char>, Seq<char>) {
    (c.is_current_sender, c.gateway_id@, c.sender_external_id@, c.active_for@)
}

pub open spec fn ctx_lines(v: Seq<TypingCtx>) -> Seq<(bool, Seq<char>, Seq<char>, Seq<char>)> {
    v.map_values(|c: TypingCtx| ctx_line(c))
}

proof fn lemma_insert_at(
    s: Seq<(bool, Seq<char>, Seq<char>, Seq<char>)>,
    x: (bool, Seq<char>, Seq<char>, Seq<char>),
    j: int,
)
    requires
        0 <= j <= s.len(),
        j == 0 || !typing_lt(line_key(x), line_key(s[j - 1])),
        forall|k: int| j <= k < s.len() ==> typing_lt(line_key(x), line_key(#[trigger] s[k])),
    ensures
        insert_line(s, x) == s.take(j).push(x) + s.skip(j),
    decreases s.len(),
{
    if s.len() == 0 {
        assert(s.take(j).push(x) + s.skip(j) =~= seq![x]);
    } else if j == s.len() {
        assert(s.take(j).push(x) + s.skip(j) =~= s.push(x));
    } else {
        assert(typing_lt(line_key(x), line_key(s[s.len() - 1])));
        let t = s.drop_last();
        assert forall|k: int| j <= k < t.len() implies typing_lt(line_key(x), line_key(#[trigger] t[k])) by {
            assert(t[k] == s[k]);
        }
        if j > 0 {
            assert(t[j - 1] == s[j - 1]);
        }
        lemma_insert_at(t, x, j);
        assert(t.take(j).push(x) + t.skip(j) + seq![s.last()] =~= s.take(j).push(x) + s.skip(j));
    }
}

fn typing_less(a: &TypingCtx, b: &TypingCtx) -> (r: bool)
    ensures
        r == typing_lt(typing_key(*a), typing_key(*b)),
{
    if a.is_current_sender != b.is_current_sender {
        return a.is_current_sender;
    }
    if text_less(a.gateway_id.as_str(), b.gateway_id.as_str()) {
        return true;
    }
    a.gateway_id == b.gateway_id && text_less(a.sender_external_id.as_str(), b.sender_external_id.as_str())
}

/// `active_typing_ctx`: the active indicators of the conversation, the
/// current sender's first, then by gateway and sender.
pub fn active_typing_ctx(
    entries: &Vec<TypingEntry>,
    current: &Option<(String, String, String)>,
    conversation: &Option<String>,
    now: i64,
) -> (r: Vec<TypingCtx>)
    ensures
        ctx_lines(r@) == typing_lines(entries@, match current {
            Some((c, g, s)) => Some((c@, g@, s@)),
            None => None,
        }, crate::memory::opt_view(*conversation), now),
{
    let ghost cur = match current {
        Some((c, g, s)) => Some((c@, g@, s@)),
        None => None,
    };
    let ghost conv = crate::memory::opt_view(*conversation);
    let mut out: Vec<TypingCtx> = Vec::new();
    let mut i: usize = 0;
    while i < entries.len()
        invariant
            0 <= i <= entries.len(),
            cur == match current {
                Some((c, g, s)) => Some((c@, g@, s@)),
                None => None,
            },
            conv == crate::memory::opt_view(*conversation),
            ctx_lines(out@) == typing_lines(entries@.take(i as int), cur, conv, now),
        decreases entries.len() - i,
    {
        assert(entries@.take(i + 1).drop_last() =~= entries@.take(i as int));
        assert(entries@.take(i + 1).last() == entries@[i as int]);
        let e = &entries[i];
        let in_conversation = match conversation {
            Some(c) => e.conversation == *c,
            None => true,
        };
        let wide = (now as i128) - (e.started_at as i128);
        let elapsed: i64 = if wide > (i64::MAX as i128) {
            i64::MAX
        } else if wide < (i64::MIN as i128) {
            i64::MIN
        } else {
            wide as i64
        };
        assert(elapsed as int == elapsed_secs(now, e.started_at));
        if in_conversation && elapsed <= 10 {
            let is_current = match current {
                Some((c, g, s)) => *c == e.conversation && *g == e.gateway_id && *s == e.sender_external_id,
                None => false,
            };
            let line = TypingCtx {
                gateway_id: e.gateway_id.clone(),
                sender_external_id: e.sender_external_id.clone(),
                active_for: duration_words(elapsed),
                is_current_sender: is_current,
            };
            let ghost lv = ctx_line(line);
            assert(lv == typing_line(entries@[i as int], cur, now));
            let mut j: usize = out.len();
            while j > 0 && typing_less(&line, &out[j - 1])
                invariant
                    0 <= j <= out@.len(),
                    lv == ctx_line(line),
                    forall|k: int| j <= k < out@.len() ==> typing_lt(line_key(lv), line_key(#[trigger] ctx_lines(out@)[k])),
                decreases j,
            {
                assert(ctx_lines(out@)[j - 1] == ctx_line(out@[j - 1]));
                j = j - 1;
            }
            proof {
                if j > 0 {
                    assert(ctx_lines(out@)[j - 1] == ctx_line(out@[j - 1]));
                }
                lemma_insert_at(ctx_lines(out@), lv, j as int);
            }
            let ghost before = ctx_lines(out@);
            out.insert(j, line);
            proof {
                assert(ctx_lines(out@) =~= before.take(j as int).push(lv) + before.skip(j as int));
            }
        }
        i = i + 1;
    }
    assert(entries@.take(entries.len() as int) =~= entries@);
    out
}

proof fn lemma_text_lt_irreflexive(a: Seq<char>)
    ensures
        !text_lt(a, a),
    decreases a.len(),
{
    if a.len() > 0 {
        lemma_text_lt_irreflexive(a.drop_first());
    }
}

proof fn lemma_text_lt_transitive(a: Seq<char>, b: Seq<char>, c: Seq<char>)
    requires
        text_lt(a, b),
        text_lt(b, c),
    ensures
        text_lt(a, c),
    decreases a.len(),
{
    if a.len() > 0 && b.len() > 0 && c.len() > 0 && a[0] == b[0] && b[0] == c[0] {
        lemma_text_lt_transitive(a.drop_first(), b.drop_first(), c.drop_first());
    }
}

proof fn lemma_text_lt_total(a: Seq<char>, b: Seq<char>)
    ensures
        a == b || text_lt(a, b) || text_lt(b, a),
    decreases a.len(),
{
    if a.len() > 0 && b.len() > 0 && a[0] == b[0] {
        lemma_text_lt_total(a.drop_first(), b.drop_first());
        if a.drop_first() == b.drop_first() {
            assert(a =~= seq![a[0]] + a.drop_first());
            assert(b =~= seq![b[0]] + b.drop_first());
        }
    } else if a.len() > 0 && b.len() > 0 {
        assert(a[0] < b[0] || b[0] < a[0]);
    } else if a.len() == 0 && b.len() == 0 {
        assert(a =~= b);
    }
}

proof fn lemma_typing_lt_order(
    a: (bool, Seq<char>, Seq<char>),
    b: (bool, Seq<char>, Seq<char>),
    c: (bool, Seq<char>, Seq<char>),
)
    ensures
        !typing_lt(a, a),
        typing_lt(a, b) && typing_lt(b, c) ==> typing_lt(a, c),
        a == b || typing_lt(a, b) || typing_lt(b, a),
{
    lemma_text_lt_irreflexive(a.1);
    lemma_text_lt_irreflexive(a.2);
    lemma_text_lt_total(a.1, b.1);
    lemma_text_lt_total(a.2, b.2);
    if text_lt(a.1, b.1) && text_lt(b.1, c.1) {
        lemma_text_lt_transitive(a.1, b.1, c.1);
    }
    if text_lt(a.2, b.2) && text_lt(b.2, c.2) {
        lemma_text_lt_transitive(a.2, b.2, c.2);
    }
    if a.1 != b.1 && !text_lt(a.1, b.1) && text_lt(b.1, a.1) && text_lt(a.1, b.1) {
        lemma_text_lt_transitive(a.1, b.1, a.1);
        lemma_text_lt_irreflexive(a.1);
    }
}

/// No line comes after a line it should precede.
pub open spec fn lines_sorted(s: Seq<(bool, Seq<char>, Seq<char>, Seq<char>)>) -> bool {
    forall|a: int, b: int| 0 <= a < b < s.len() ==> !typing_lt(line_key(#[trigger] s[b]), line_key(#[trigger] s[a]))
}

proof fn lemma_insert_keeps_sorted(
    s: Seq<(bool, Seq<char>, Seq<char>, Seq<char>)>,
    x: (bool, Seq<char>, Seq<char>, Seq<char>),
)
    requires
        lines_sorted(s),
    ensures
        lines_sorted(insert_line(s, x)),
        insert_line(s, x).len() == s.len() + 1,
    decreases s.len(),
{
    if s.len() == 0 {
    } else if typing_lt(line_key(x), line_key(s.last())) {
        let t = s.drop_last();
        assert(lines_sorted(t)) by {
            assert forall|a: int, b: int| 0 <= a < b < t.len() implies !typing_lt(
                line_key(#[trigger] t[b]),
                line_key(#[trigger] t[a]),
            ) by {
                assert(t[a] == s[a] && t[b] == s[b]);
            }
        }
        lemma_insert_keeps_sorted(t, x);
        let u = insert_line(t, x);
        let r = u.push(s.last());
        assert forall|a: int, b: int| 0 <= a < b < r.len() implies !typing_lt(
            line_key(#[trigger] r[b]),
            line_key(#[trigger] r[a]),
        ) by {
            if b < u.len() {
                assert(r[a] == u[a] && r[b] == u[b]);
            } else {
                // r[b] is the old last line; r[a] is x or an earlier line.
                assert(r[b] == s.last());
                lemma_insert_members(t, x, a);
                let ya = r[a];
                assert(ya == u[a]);
                if ya == x {
                    lemma_typing_lt_order(line_key(x), line_key(s.last()), line_key(x));
                } else {
                    let k = choose|k: int| 0 <= k < t.len() && t[k] == ya;
                    assert(s[k] == ya);
                    assert(!typing_lt(line_key(s[s.len() - 1]), line_key(s[k])));
                }
            }
        }
    } else {
        let r = s.push(x);
        assert forall|a: int, b: int| 0 <= a < b < r.len() implies !typing_lt(
            line_key(#[trigger] r[b]),
            line_key(#[trigger] r[a]),
        ) by {
            if b < s.len() {
                assert(r[a] == s[a] && r[b] == s[b]);
            } else {
                assert(r[a] == s[a]);
                let last = s.last();
                assert(!typing_lt(line_key(x), line_key(last)));
                if a < s.len() - 1 {
                    assert(!typing_lt(line_key(s[s.len() - 1]), line_key(s[a])));
                    lemma_typing_lt_order(line_key(x), line_key(s[a]), line_key(last));
                    lemma_typing_lt_order(line_key(s[a]), line_key(last), line_key(x));
                    lemma_typing_lt_order(line_key(last), line_key(s[a]), line_key(x));
                }
            }
        }
    }
}

proof fn lemma_insert_members(
    s: Seq<(bool, Seq<char>, Seq<char>, Seq<char>)>,
    x: (bool, Seq<char>, Seq<char>, Seq<char>),
    a: int,
)
    requires
        0 <= a < insert_line(s, x).len(),
    ensures
        insert_line(s, x).len() == s.len() + 1,
        insert_line(s, x)[a] == x || exists|k: int| 0 <= k < s.len() && s[k] == insert_line(s, x)[a],
    decreases s.len(),
{
    if s.len() == 0 {
    } else if typing_lt(line_key(x), line_key(s.last())) {
        let t = s.drop_last();
        if a < insert_line(t, x).len() {
            lemma_insert_members(t, x, a);
            if insert_line(s, x)[a] != x {
                let k = choose|k: int| 0 <= k < t.len() && t[k] == insert_line(t, x)[a];
                assert(s[k] == t[k]);
            }
        } else {
            lemma_insert_members(t, x, 0);
            assert(insert_line(s, x)[a] == s[s.len() - 1]);
        }
    } else {
        if a < s.len() {
            assert(insert_line(s, x)[a] == s[a]);
        }
    }
}

/// The typing lines are in order: the current sender first, then by
/// gateway, then by sender.
pub proof fn lemma_typing_lines_sorted(
    es: Seq<TypingEntry>,
    current: Option<(Seq<char>, Seq<char>, Seq<char>)>,
    conversation: Option<Seq<char>>,
    now: i64,
)
    ensures
        lines_sorted(typing_lines(es, current, conversation, now)),
    decreases es.len(),
{
    if es.len() > 0 {
        lemma_typing_lines_sorted(es.drop_last(), current, conversation, now);
        if typing_shown(es.last(), conversation, now) {
            lemma_insert_keeps_sorted(
                typing_lines(es.drop_last(), current, conversation, now),
                typing_line(es.last(), current, now),
            );
        }
    }
}

// ---------------------------------------------------------------------------
// Memory packs
// ---------------------------------------------------------------------------

/// A memory as the prompt shows it; importance and confidence in percent.
pub struct RelevantMemoryCtx {
    pub id: String,
    pub scope: String,
    pub memory_type: String,
    pub truth_status: String,
    pub importance: i32,
    pub confidence: i32,
    pub content: String,
}

/// How many memories a pack shows.
pub const MEMORY_PACK_SIZE: usize = 6;

pub open spec fn pack_ids(v: Seq<RelevantMemoryCtx>) -> Seq<Seq<char>> {
    v.map_values(|m: RelevantMemoryCtx| m.id@)
}

/// The memories of a recall batch that the pack does not hold yet, each id
/// once, in order.
pub open spec fn unseen(held: Seq<Seq<char>>, batch: Seq<RelevantMemoryCtx>) -> Seq<RelevantMemoryCtx>
    decreases batch.len(),
{
    if batch.len() == 0 {
        Seq::empty()
    } else {
        let before = unseen(held, batch.drop_last());
        let id = batch.last().id@;
        if held.contains(id) || pack_ids(before).contains(id) {
            before
        } else {
            before.push(batch.last())
        }
    }
}

/// `append_recalled_memories`: adds a batch's memories the pack does not hold.
pub fn append_unseen_memories(pack: &mut Vec<RelevantMemoryCtx>, batch: Vec<RelevantMemoryCtx>)
    ensures
        final(pack)@ == old(pack)@ + unseen(pack_ids(old(pack)@), batch@),
{
    let ghost held = pack_ids(old(pack)@);
    let ghost p0 = old(pack)@;
    let ghost b = batch@;
    let mut rest = batch;
    let mut taken: usize = 0;
    let ghost all = b;
    assert(rest@ =~= all.skip(0));
    let n = rest.len();
    assert(all.len() == n);
    while rest.len() > 0
        invariant
            0 <= taken <= all.len(),
            all.len() == rest@.len() + taken,
            all.len() <= usize::MAX,
            rest@ == all.skip(taken as int),
            held == pack_ids(p0),
            pack@ == p0 + unseen(held, all.take(taken as int)),
        decreases rest.len(),
    {
        let m = rest.remove(0);
        proof {
            assert(m == all[taken as int]);
            assert(rest@ =~= all.skip(taken + 1));
            assert(all.take(taken + 1).drop_last() =~= all.take(taken as int));
            assert(all.take(taken + 1).last() == all[taken as int]);
        }
        let mut seen = false;
        let mut i: usize = 0;
        while i < pack.len() && !seen
            invariant
                0 <= i <= pack@.len(),
                seen ==> i < pack@.len() && pack@[i as int].id@ == m.id@,
                forall|k: int| 0 <= k < i ==> (#[trigger] pack@[k]).id@ != m.id@,
            decreases pack.len() - i, if seen { 0int } else { 1int },
        {
            if pack[i].id == m.id {
                seen = true;
            } else {
                i = i + 1;
            }
        }
        proof {
            let u = unseen(held, all.take(taken as int));
            assert(pack_ids(pack@) =~= held + pack_ids(u));
            if seen {
                assert(pack_ids(pack@)[i as int] == m.id@);
                crate::messaging::lemma_concat_contains_pub(held, pack_ids(u), m.id@);
            } else {
                assert(!pack_ids(pack@).contains(m.id@)) by {
                    if pack_ids(pack@).contains(m.id@) {
                        let t = choose|t: int| 0 <= t < pack_ids(pack@).len() && pack_ids(pack@)[t] == m.id@;
                        assert(pack_ids(pack@)[t] == pack@[t].id@);
                    }
                }
                crate::messaging::lemma_concat_contains_pub(held, pack_ids(u), m.id@);
            }
        }
        if !seen {
            let ghost before = pack@;
            pack.push(m);
            assert(pack@ =~= p0 + unseen(held, all.take(taken + 1)));
        }
        taken = taken + 1;
    }
    assert(all.take(all.len() as int) =~= all);
}

/// The memory types a relationship pack holds.
pub open spec fn relationship_kind(t: Seq<char>) -> bool {
    t == "preference"@ || t == "style_pattern"@ || t == "boundary"@ || t == "commitment"@ || t
        == "open_loop"@ || t == "relationship_fact"@
}

/// `relationship_pack_memory_type`, on the type's name.
pub fn relationship_pack_memory_type(t: &str) -> (r: bool)
    ensures
        r == relationship_kind(t@),
{
    crate::text::str_eq(t, "preference") || crate::text::str_eq(t, "style_pattern") || crate::text::str_eq(t, "boundary")
        || crate::text::str_eq(t, "commitment") || crate::text::str_eq(t, "open_loop") || crate::text::str_eq(
        t,
        "relationship_fact",
    )
}

/// The memory types a relationship pack recalls, in the order it asks.
pub fn relationship_pack_memory_types() -> (r: Vec<&'static str>)
    ensures
        r@.map_values(|t: &'static str| t@) == seq![
            "preference"@,
            "style_pattern"@,
            "boundary"@,
            "commitment"@,
            "open_loop"@,
            "relationship_fact"@,
        ],
{
    let r = vec!["preference", "style_pattern", "boundary", "commitment", "open_loop", "relationship_fact"];
    assert(r@.map_values(|t: &'static str| t@) =~= seq![
        "preference"@,
        "style_pattern"@,
        "boundary"@,
        "commitment"@,
        "open_loop"@,
        "relationship_fact"@,
    ]);
    r
}

/// The memories of a batch whose type a relationship pack holds, in order.
pub open spec fn relationship_only(batch: Seq<RelevantMemoryCtx>) -> Seq<RelevantMemoryCtx>
    decreases batch.len(),
{
    if batch.len() == 0 {
        Seq::empty()
    } else if relationship_kind(batch.last().memory_type@) {
        relationship_only(batch.drop_last()).push(batch.last())
    } else {
        relationship_only(batch.drop_last())
    }
}

/// `append_relationship_memories`: adds a recall batch's relationship
/// memories that the pack does not hold yet.
pub fn append_relationship_memories(pack: &mut Vec<RelevantMemoryCtx>, batch: Vec<RelevantMemoryCtx>)
    ensures
        final(pack)@ == old(pack)@ + unseen(pack_ids(old(pack)@), relationship_only(batch@)),
{
    let ghost all = batch@;
    let mut kept: Vec<RelevantMemoryCtx> = Vec::new();
    let mut rest = batch;
    let mut taken: usize = 0;
    assert(rest@ =~= all.skip(0));
    let n = rest.len();
    assert(all.len() == n);
    while rest.len() > 0
        invariant
            0 <= taken <= all.len(),
            all.len() == rest@.len() + taken,
            rest@ == all.skip(taken as int),
            kept@ == relationship_only(all.take(taken as int)),
            all.len() <= usize::MAX,
        decreases rest.len(),
    {
        let m = rest.remove(0);
        proof {
            assert(m == all[taken as int]);
            assert(rest@ =~= all.skip(taken + 1));
            assert(all.take(taken + 1).drop_last() =~= all.take(taken as int));
            assert(all.take(taken + 1).last() == all[taken as int]);
        }
        if relationship_pack_memory_type(m.memory_type.as_str()) {
            kept.push(m);
        }
        taken = taken + 1;
    }
    assert(all.take(all.len() as int) =~= all);
    append_unseen_memories(pack, kept);
}

/// Relationship memories come most important first, then most confident.
pub open spec fn pack_before(a: RelevantMemoryCtx, b: RelevantMemoryCtx) -> bool {
    a.importance > b.importance || (a.importance == b.importance && a.confidence > b.confidence)
}

/// Inserts a memory after every memory not after it (a stable insertion).
pub open spec fn pack_insert(s: Seq<RelevantMemoryCtx>, x: RelevantMemoryCtx) -> Seq<RelevantMemoryCtx>
    decreases s.len(),
{
    if s.len() == 0 {
        seq![x]
    } else if pack_before(x, s.last()) {
        pack_insert(s.drop_last(), x).push(s.last())
    } else {
        s.push(x)
    }
}

pub open spec fn pack_sorted_spec(s: Seq<RelevantMemoryCtx>) -> Seq<RelevantMemoryCtx>
    decreases s.len(),
{
    if s.len() == 0 {
        Seq::empty()
    } else {
        pack_insert(pack_sorted_spec(s.drop_last()), s.last())
    }
}

proof fn lemma_pack_insert_at(s: Seq<RelevantMemoryCtx>, x: RelevantMemoryCtx, j: int)
    requires
        0 <= j <= s.len(),
        j == 0 || !pack_before(x, s[j - 1]),
        forall|k: int| j <= k < s.len() ==> pack_before(x, #[trigger] s[k]),
    ensures
        pack_insert(s, x) == s.take(j).push(x) + s.skip(j),
    decreases s.len(),
{
    if s.len() == 0 {
        assert(s.take(j).push(x) + s.skip(j) =~= seq![x]);
    } else if j == s.len() {
        assert(s.take(j).push(x) + s.skip(j) =~= s.push(x));
    } else {
        assert(pack_before(x, s[s.len() - 1]));
        let t = s.drop_last();
        assert forall|k: int| j <= k < t.len() implies pack_before(x, #[trigger] t[k]) by {
            assert(t[k] == s[k]);
        }
        if j > 0 {
            assert(t[j - 1] == s[j - 1]);
        }
        lemma_pack_insert_at(t, x, j);
        assert(t.take(j).push(x) + t.skip(j) + seq![s.last()] =~= s.take(j).push(x) + s.skip(j));
    }
}

/// `fetch_relationship_memories`' order and cut: the relationship memories
/// sorted, most important first, the first six kept.
pub fn order_relationship_memories(pack: &mut Vec<RelevantMemoryCtx>)
    ensures
        final(pack)@ == if pack_sorted_spec(old(pack)@).len() > MEMORY_PACK_SIZE {
            pack_sorted_spec(old(pack)@).take(MEMORY_PACK_SIZE as int)
        } else {
            pack_sorted_spec(old(pack)@)
        },
{
    let ghost all = pack@;
    let mut rest: Vec<RelevantMemoryCtx> = Vec::new();
    std::mem::swap(&mut rest, pack);
    assert(rest@ =~= all.skip(0));
    let n = rest.len();
    assert(all.len() == n);
    let mut taken: usize = 0;
    let mut out: Vec<RelevantMemoryCtx> = Vec::new();
    while rest.len() > 0
        invariant
            0 <= taken <= all.len(),
            all.len() == rest@.len() + taken,
            all.len() <= usize::MAX,
            rest@ == all.skip(taken as int),
            out@ == pack_sorted_spec(all.take(taken as int)),
        decreases rest.len(),
    {
        let m = rest.remove(0);
        proof {
            assert(m == all[taken as int]);
            assert(rest@ =~= all.skip(taken + 1));
            assert(all.take(taken + 1).drop_last() =~= all.take(taken as int));
            assert(all.take(taken + 1).last() == all[taken as int]);
        }
        let mut j: usize = out.len();
        while j > 0 && (m.importance > out[j - 1].importance || (m.importance == out[j - 1].importance
            && m.confidence > out[j - 1].confidence))
            invariant
                0 <= j <= out@.len(),
                forall|k: int| j <= k < out@.len() ==> pack_before(m, #[trigger] out@[k]),
            decreases j,
        {
            j = j - 1;
        }
        proof {
            lemma_pack_insert_at(out@, m, j as int);
        }
        out.insert(j, m);
        taken = taken + 1;
    }
    assert(all.take(all.len() as int) =~= all);
    out.truncate(MEMORY_PACK_SIZE);
    *pack = out;
}

/// No memory comes after one it should precede.
pub open spec fn pack_in_order(s: Seq<RelevantMemoryCtx>) -> bool {
    forall|a: int, b: int| 0 <= a < b < s.len() ==> !pack_before(#[trigger] s[b], #[trigger] s[a])
}

proof fn lemma_pack_insert_members(s: Seq<RelevantMemoryCtx>, x: RelevantMemoryCtx, a: int)
    requires
        0 <= a < pack_insert(s, x).len(),
    ensures
        pack_insert(s, x).len() == s.len() + 1,
        pack_insert(s, x)[a] == x || exists|k: int| 0 <= k < s.len() && s[k] == pack_insert(s, x)[a],
    decreases s.len(),
{
    if s.len() == 0 {
    } else if pack_before(x, s.last()) {
        let t = s.drop_last();
        if a < pack_insert(t, x).len() {
            lemma_pack_insert_members(t, x, a);
            if pack_insert(s, x)[a] != x {
                let k = choose|k: int| 0 <= k < t.len() && t[k] == pack_insert(t, x)[a];
                assert(s[k] == t[k]);
            }
        } else {
            lemma_pack_insert_members(t, x, 0);
            assert(pack_insert(s, x)[a] == s[s.len() - 1]);
        }
    } else {
        if a < s.len() {
            assert(pack_insert(s, x)[a] == s[a]);
        }
    }
}

proof fn lemma_pack_insert_in_order(s: Seq<RelevantMemoryCtx>, x: RelevantMemoryCtx)
    requires
        pack_in_order(s),
    ensures
        pack_in_order(pack_insert(s, x)),
        pack_insert(s, x).len() == s.len() + 1,
    decreases s.len(),
{
    if s.len() == 0 {
    } else if pack_before(x, s.last()) {
        let t = s.drop_last();
        assert(pack_in_order(t)) by {
            assert forall|a: int, b: int| 0 <= a < b < t.len() implies !pack_before(#[trigger] t[b], #[trigger] t[a]) by {
                assert(t[a] == s[a] && t[b] == s[b]);
            }
        }
        lemma_pack_insert_in_order(t, x);
        let u = pack_insert(t, x);
        let r = u.push(s.last());
        assert forall|a: int, b: int| 0 <= a < b < r.len() implies !pack_before(#[trigger] r[b], #[trigger] r[a]) by {
            if b < u.len() {
                assert(r[a] == u[a] && r[b] == u[b]);
            } else {
                assert(r[b] == s.last());
                lemma_pack_insert_members(t, x, a);
                if r[a] != x {
                    let k = choose|k: int| 0 <= k < t.len() && t[k] == u[a];
                    assert(s[k] == r[a]);
                    assert(!pack_before(s[s.len() - 1], s[k]));
                }
            }
        }
    } else {
        let r = s.push(x);
        assert forall|a: int, b: int| 0 <= a < b < r.len() implies !pack_before(#[trigger] r[b], #[trigger] r[a]) by {
            if b < s.len() {
                assert(r[a] == s[a] && r[b] == s[b]);
            } else {
                assert(r[a] == s[a]);
                if a < s.len() - 1 {
                    assert(!pack_before(s[s.len() - 1], s[a]));
                }
            }
        }
    }
}

/// Relationship memories are listed most important first, then most
/// confident, whatever order the store returned them in.
pub proof fn lemma_relationship_pack_in_order(s: Seq<RelevantMemoryCtx>)
    ensures
        pack_in_order(pack_sorted_spec(s)),
        pack_sorted_spec(s).len() == s.len(),
    decreases s.len(),
{
    if s.len() > 0 {
        lemma_relationship_pack_in_order(s.drop_last());
        lemma_pack_insert_in_order(pack_sorted_spec(s.drop_last()), s.last());
    }
}

/// A pack never holds a memory twice.
pub proof fn lemma_unseen_is_fresh(held: Seq<Seq<char>>, batch: Seq<RelevantMemoryCtx>)
    ensures
        pack_ids(unseen(held, batch)).no_duplicates(),
        forall|x: Seq<char>| #[trigger] pack_ids(unseen(held, batch)).contains(x) ==> !held.contains(x),
    decreases batch.len(),
{
    if batch.len() > 0 {
        lemma_unseen_is_fresh(held, batch.drop_last());
        let before = unseen(held, batch.drop_last());
        let x = batch.last().id@;
        if !(held.contains(x) || pack_ids(before).contains(x)) {
            assert(pack_ids(before.push(batch.last())) =~= pack_ids(before).push(x));
            crate::session::lemma_push_contains(pack_ids(before), x);
        }
    }
}

// ---------------------------------------------------------------------------
// Timing context
// ---------------------------------------------------------------------------

/// An hour of the day as two digits at least.
pub open spec fn two_digits(h: u8) -> Seq<char> {
    if h < 10 {
        seq!['0'] + decimal(h as nat)
    } else {
        decimal(h as nat)
    }
}

/// What the prompt says of the configured quiet hours: when they end, if
/// they are on now (`delay` is the seconds left); else their window.
pub open spec fn quiet_hours_text_spec(delay: Option<u64>, start_hour: u8, end_hour: u8) -> Seq<char> {
    match delay {
        Some(d) => "quiet hours active; ends in "@ + duration_text((d as i64) as int),
        None => "quiet hours configured "@ + two_digits(start_hour) + ":00-"@ + two_digits(end_hour)
            + ":00 UTC; currently open"@,
    }
}

fn push_two_digits(out: &mut String, h: u8)
    ensures
        final(out)@ == old(out)@ + two_digits(h),
{
    if h < 10 {
        push_char(out, '0');
    }
    push_decimal(out, h as u64);
    if h < 10 {
        assert(old(out)@.push('0') + decimal(h as nat) =~= old(out)@ + (seq!['0'] + decimal(h as nat)));
    }
}

/// `build_timing_ctx`'s quiet-hours line. `delay` is what the configured
/// window answers for the seconds until it ends (none when it is open now).
pub fn quiet_hours_text(delay: Option<u64>, start_hour: u8, end_hour: u8) -> (r: String)
    ensures
        r@ == quiet_hours_text_spec(delay, start_hour, end_hour),
{
    match delay {
        Some(d) => {
            let mut s = owned("quiet hours active; ends in ");
            let w = duration_words(d as i64);
            append_str(&mut s, w.as_str());
            s
        },
        None => {
            let mut s = owned("quiet hours configured ");
            push_two_digits(&mut s, start_hour);
            append_str(&mut s, ":00-");
            push_two_digits(&mut s, end_hour);
            append_str(&mut s, ":00 UTC; currently open");
            s
        },
    }
}

/// When someone was last heard from or written to, if ever (a zero time
/// means never).
pub fn last_contact_text(at: i64, now: i64) -> (r: Option<String>)
    requires
        i64::MIN <= now - at <= i64::MAX,
    ensures
        at > 0 ==> r is Some && r->0@ == relative_text(at as int, now as int),
        at <= 0 ==> r is None,
{
    if at > 0 {
        Some(relative_duration(at, now))
    } else {
        None
    }
}

/// The gateway a timing context reports on: the conversation summary's
/// gateway, else that of a message in the conversation; without a
/// conversation, the first message's gateway.
pub open spec fn context_gateway(
    conversation: Option<Seq<char>>,
    summaries: Seq<crate::model::ConversationFacts>,
    messages: Seq<InboundMessage>,
) -> Option<Seq<char>> {
    match conversation {
        Some(c) => {
            let from_summary = match crate::messaging::first_conversation(summaries, c) {
                Some(f) => crate::memory::opt_view(f.gateway_id),
                None => None,
            };
            match from_summary {
                Some(g) => Some(g),
                None => match first_in_conversation(messages, c) {
                    Some(m) => Some(m.gateway_id@),
                    None => None,
                },
            }
        },
        None => if messages.len() > 0 {
            Some(messages[0].gateway_id@)
        } else {
            None
        },
    }
}

/// The first message of the conversation.
pub open spec fn first_in_conversation(ms: Seq<InboundMessage>, c: Seq<char>) -> Option<InboundMessage>
    decreases ms.len(),
{
    if ms.len() == 0 {
        None
    } else if ms[0].conversation@ == c {
        Some(ms[0])
    } else {
        first_in_conversation(ms.drop_first(), c)
    }
}

/// `fetch_gateway_ctx`'s choice of gateway.
#[verifier::loop_isolation(false)]
pub fn gateway_for_context(
    conversation: &Option<String>,
    summaries: &Vec<crate::model::ConversationFacts>,
    messages: &Vec<InboundMessage>,
) -> (r: Option<String>)
    ensures
        crate::memory::opt_view(r) == context_gateway(crate::memory::opt_view(*conversation), summaries@, messages@),
{
    let c = match conversation {
        Some(c) => c,
        None => {
            return if messages.len() > 0 {
                Some(messages[0].gateway_id.clone())
            } else {
                None
            };
        },
    };
    let mut i: usize = 0;
    assert(summaries@.skip(0) =~= summaries@);
    while i < summaries.len() && summaries[i].id != *c
        invariant
            0 <= i <= summaries.len(),
            crate::messaging::first_conversation(summaries@, c@) == crate::messaging::first_conversation(
                summaries@.skip(i as int),
                c@,
            ),
        decreases summaries.len() - i,
    {
        assert(summaries@.skip(i as int).drop_first() =~= summaries@.skip(i + 1));
        assert(summaries@.skip(i as int)[0] == summaries@[i as int]);
        i = i + 1;
    }
    let from_summary = if i < summaries.len() {
        assert(summaries@.skip(i as int)[0] == summaries@[i as int]);
        crate::model::copy_opt(&summaries[i].gateway_id)
    } else {
        None
    };
    if from_summary.is_some() {
        return from_summary;
    }
    let mut j: usize = 0;
    assert(messages@.skip(0) =~= messages@);
    while j < messages.len()
        invariant
            0 <= j <= messages.len(),
            first_in_conversation(messages@, c@) == first_in_conversation(messages@.skip(j as int), c@),
        decreases messages.len() - j,
    {
        assert(messages@.skip(j as int).drop_first() =~= messages@.skip(j + 1));
        assert(messages@.skip(j as int)[0] == messages@[j as int]);
        if messages[j].conversation == *c {
            return Some(messages[j].gateway_id.clone());
        }
        j = j + 1;
    }
    None
}

// ---------------------------------------------------------------------------
// Social relations shown in the prompt
// ---------------------------------------------------------------------------

/// What ordering and filtering a social relation reads of it: its status,
/// its confidence in millionths and in whole percent, and when it changed.
#[derive(Clone, Copy, Debug)]
pub struct RelationRank {
    pub status: RelationStatus,
    pub confidence_micros: i64,
    pub confidence_pct: i32,
    pub updated_at: i64,
}

/// The least confidence a relation shown in the prompt has, in millionths.
pub const SOCIAL_CONTEXT_MIN_CONFIDENCE_MICROS: i64 = 400_000;
/// The most relations the prompt shows.
pub const SOCIAL_CONTEXT_SIZE: usize = 5;

pub open spec fn status_rank(s: RelationStatus) -> u8 {
    match s {
        RelationStatus::Confirmed => 3,
        RelationStatus::Stated => 2,
        RelationStatus::Hypothesis => 1,
        _ => 0,
    }
}

/// `social_relation_rank`: status first, then confidence, then recency.
pub open spec fn relation_key(r: RelationRank) -> (u8, i32, i64) {
    (status_rank(r.status), r.confidence_pct, r.updated_at)
}

pub fn social_relation_rank(r: &RelationRank) -> (k: (u8, i32, i64))
    ensures
        k == relation_key(*r),
{
    let status: u8 = match r.status {
        RelationStatus::Confirmed => 3,
        RelationStatus::Stated => 2,
        RelationStatus::Hypothesis => 1,
        _ => 0,
    };
    (status, r.confidence_pct, r.updated_at)
}

/// The prompt shows a relation that is neither denied nor outdated and is
/// confident enough.
pub open spec fn shown_relation(r: RelationRank) -> bool {
    r.status != RelationStatus::Denied && r.status != RelationStatus::Outdated
        && r.confidence_micros >= SOCIAL_CONTEXT_MIN_CONFIDENCE_MICROS
}

/// The relation at `a` ranks strictly above the one at `b`.
pub open spec fn relation_before(ranks: Seq<RelationRank>, a: usize, b: usize) -> bool {
    let ka = relation_key(ranks[a as int]);
    let kb = relation_key(ranks[b as int]);
    ka.0 > kb.0 || (ka.0 == kb.0 && (ka.1 > kb.1 || (ka.1 == kb.1 && ka.2 > kb.2)))
}

/// The positions of the shown relations among the first `n`, in order.
pub open spec fn shown_positions(ranks: Seq<RelationRank>, n: nat) -> Seq<usize>
    decreases n,
{
    if n == 0 {
        Seq::empty()
    } else {
        let p = shown_positions(ranks, (n - 1) as nat);
        if shown_relation(ranks[n - 1]) {
            p.push((n - 1) as usize)
        } else {
            p
        }
    }
}

/// Inserts a position after every position that does not rank below it (a
/// stable insertion, as a stable sort by descending rank places it).
pub open spec fn relation_insert(ranks: Seq<RelationRank>, s: Seq<usize>, x: usize) -> Seq<usize>
    decreases s.len(),
{
    if s.len() == 0 {
        seq![x]
    } else if relation_before(ranks, x, s.last()) {
        relation_insert(ranks, s.drop_last(), x).push(s.last())
    } else {
        s.push(x)
    }
}

/// The positions stably sorted by descending rank.
pub open spec fn relations_sorted(ranks: Seq<RelationRank>, s: Seq<usize>) -> Seq<usize>
    decreases s.len(),
{
    if s.len() == 0 {
        Seq::empty()
    } else {
        relation_insert(ranks, relations_sorted(ranks, s.drop_last()), s.last())
    }
}

/// The relations the prompt shows: the shown ones, best ranked first, at
/// most five.
pub open spec fn social_context_positions(ranks: Seq<RelationRank>) -> Seq<usize> {
    let all = relations_sorted(ranks, shown_positions(ranks, ranks.len()));
    if all.len() > SOCIAL_CONTEXT_SIZE {
        all.take(SOCIAL_CONTEXT_SIZE as int)
    } else {
        all
    }
}

proof fn lemma_relation_insert_at(ranks: Seq<RelationRank>, s: Seq<usize>, x: usize, j: int)
    requires
        0 <= j <= s.len(),
        j == 0 || !relation_before(ranks, x, s[j - 1]),
        forall|k: int| j <= k < s.len() ==> relation_before(ranks, x, #[trigger] s[k]),
    ensures
        relation_insert(ranks, s, x) == s.take(j).push(x) + s.skip(j),
    decreases s.len(),
{
    if s.len() == 0 {
        assert(s.take(j).push(x) + s.skip(j) =~= seq![x]);
    } else if j == s.len() {
        assert(s.take(j).push(x) + s.skip(j) =~= s.push(x));
    } else {
        assert(relation_before(ranks, x, s[s.len() - 1]));
        let t = s.drop_last();
        assert forall|k: int| j <= k < t.len() implies relation_before(ranks, x, #[trigger] t[k]) by {
            assert(t[k] == s[k]);
        }
        if j > 0 {
            assert(t[j - 1] == s[j - 1]);
        }
        lemma_relation_insert_at(ranks, t, x, j);
        assert(t.take(j).push(x) + t.skip(j) + seq![s.last()] =~= s.take(j).push(x) + s.skip(j));
    }
}

fn rank_before(a: &RelationRank, b: &RelationRank) -> (r: bool)
    ensures
        r == {
            let ka = relation_key(*a);
            let kb = relation_key(*b);
            ka.0 > kb.0 || (ka.0 == kb.0 && (ka.1 > kb.1 || (ka.1 == kb.1 && ka.2 > kb.2)))
        },
{
    let ka = social_relation_rank(a);
    let kb = social_relation_rank(b);
    ka.0 > kb.0 || (ka.0 == kb.0 && (ka.1 > kb.1 || (ka.1 == kb.1 && ka.2 > kb.2)))
}

/// `fetch_social_relations`' filter, order and cut, on the relations the
/// store gave: the positions of those the prompt shows, best ranked first
/// (ties keep the store's order), at most five.
pub fn social_relation_order(ranks: &Vec<RelationRank>) -> (r: Vec<usize>)
    ensures
        r@ == social_context_positions(ranks@),
{
    let mut out: Vec<usize> = Vec::new();
    let n = ranks.len();
    let mut i: usize = 0;
    while i < n
        invariant
            n == ranks@.len(),
            0 <= i <= n,
            out@ == relations_sorted(ranks@, shown_positions(ranks@, i as nat)),
            forall|k: int| 0 <= k < out@.len() ==> #[trigger] out@[k] < i,
        decreases n - i,
    {
        let shown = ranks[i].status != RelationStatus::Denied && ranks[i].status != RelationStatus::Outdated
            && ranks[i].confidence_micros >= SOCIAL_CONTEXT_MIN_CONFIDENCE_MICROS;
        proof {
            assert(shown == shown_relation(ranks@[i as int]));
        }
        if shown {
            let ghost before = out@;
            let mut j: usize = out.len();
            while j > 0 && rank_before(&ranks[i], &ranks[out[j - 1]])
                invariant
                    n == ranks@.len(),
                    i < n,
                    0 <= j <= out@.len(),
                    out@ == before,
                    forall|k: int| 0 <= k < out@.len() ==> #[trigger] out@[k] < i,
                    forall|k: int| j <= k < out@.len() ==> relation_before(ranks@, i, #[trigger] out@[k]),
                decreases j,
            {
                j = j - 1;
            }
            proof {
                lemma_relation_insert_at(ranks@, out@, i, j as int);
                let p = shown_positions(ranks@, i as nat);
                assert(shown_positions(ranks@, (i + 1) as nat) == p.push(i));
                assert(p.push(i).drop_last() =~= p);
            }
            out.insert(j, i);
            proof {
                assert forall|k: int| 0 <= k < out@.len() implies #[trigger] out@[k] < i + 1 by {
                    if k < j {
                        assert(out@[k] == before[k]);
                    } else if k > j {
                        assert(out@[k] == before[k - 1]);
                    }
                }
            }
        }
        i = i + 1;
    }
    out.truncate(SOCIAL_CONTEXT_SIZE);
    out
}

/// No position comes after one it should precede.
pub open spec fn relations_in_order(ranks: Seq<RelationRank>, s: Seq<usize>) -> bool {
    forall|a: int, b: int| 0 <= a < b < s.len() ==> !relation_before(ranks, #[trigger] s[b], #[trigger] s[a])
}

proof fn lemma_relation_insert_members(ranks: Seq<RelationRank>, s: Seq<usize>, x: usize, a: int)
    requires
        0 <= a < relation_insert(ranks, s, x).len(),
    ensures
        relation_insert(ranks, s, x).len() == s.len() + 1,
        relation_insert(ranks, s, x)[a] == x || exists|k: int| 0 <= k < s.len() && s[k] == relation_insert(ranks, s, x)[a],
    decreases s.len(),
{
    if s.len() == 0 {
    } else if relation_before(ranks, x, s.last()) {
        let t = s.drop_last();
        if a < relation_insert(ranks, t, x).len() {
            lemma_relation_insert_members(ranks, t, x, a);
            if relation_insert(ranks, s, x)[a] != x {
                let k = choose|k: int| 0 <= k < t.len() && t[k] == relation_insert(ranks, t, x)[a];
                assert(s[k] == t[k]);
            }
        } else {
            lemma_relation_insert_members(ranks, t, x, 0);
            assert(relation_insert(ranks, s, x)[a] == s[s.len() - 1]);
        }
    } else {
        if a < s.len() {
            assert(relation_insert(ranks, s, x)[a] == s[a]);
        }
    }
}

proof fn lemma_relation_insert_in_order(ranks: Seq<RelationRank>, s: Seq<usize>, x: usize)
    requires
        relations_in_order(ranks, s),
    ensures
        relations_in_order(ranks, relation_insert(ranks, s, x)),
        relation_insert(ranks, s, x).len() == s.len() + 1,
    decreases s.len(),
{
    if s.len() == 0 {
    } else if relation_before(ranks, x, s.last()) {
        let t = s.drop_last();
        assert(relations_in_order(ranks, t)) by {
            assert forall|a: int, b: int| 0 <= a < b < t.len() implies !relation_before(ranks, #[trigger] t[b], #[trigger] t[a]) by {
                assert(t[a] == s[a] && t[b] == s[b]);
            }
        }
        lemma_relation_insert_in_order(ranks, t, x);
        let u = relation_insert(ranks, t, x);
        let r = u.push(s.last());
        assert forall|a: int, b: int| 0 <= a < b < r.len() implies !relation_before(ranks, #[trigger] r[b], #[trigger] r[a]) by {
            if b < u.len() {
                assert(r[a] == u[a] && r[b] == u[b]);
            } else {
                assert(r[b] == s.last());
                lemma_relation_insert_members(ranks, t, x, a);
                if r[a] != x {
                    let k = choose|k: int| 0 <= k < t.len() && t[k] == u[a];
                    assert(s[k] == r[a]);
                    assert(!relation_before(ranks, s[s.len() - 1], s[k]));
                }
            }
        }
    } else {
        let r = s.push(x);
        assert forall|a: int, b: int| 0 <= a < b < r.len() implies !relation_before(ranks, #[trigger] r[b], #[trigger] r[a]) by {
            if b < s.len() {
                assert(r[a] == s[a] && r[b] == s[b]);
            } else {
                assert(r[a] == s[a]);
                if a < s.len() - 1 {
                    assert(!relation_before(ranks, s[s.len() - 1], s[a]));
                }
            }
        }
    }
}

proof fn lemma_relations_sorted_members(ranks: Seq<RelationRank>, s: Seq<usize>)
    ensures
        relations_in_order(ranks, relations_sorted(ranks, s)),
        relations_sorted(ranks, s).len() == s.len(),
        forall|a: int| 0 <= a < relations_sorted(ranks, s).len() ==> s.contains(#[trigger] relations_sorted(ranks, s)[a]),
    decreases s.len(),
{
    if s.len() > 0 {
        let t = s.drop_last();
        lemma_relations_sorted_members(ranks, t);
        lemma_relation_insert_in_order(ranks, relations_sorted(ranks, t), s.last());
        let u = relations_sorted(ranks, t);
        assert forall|a: int| 0 <= a < relations_sorted(ranks, s).len() implies s.contains(#[trigger] relations_sorted(ranks, s)[a]) by {
            lemma_relation_insert_members(ranks, u, s.last(), a);
            if relations_sorted(ranks, s)[a] == s.last() {
                assert(s[s.len() - 1] == s.last());
            } else {
                let k = choose|k: int| 0 <= k < u.len() && u[k] == relation_insert(ranks, u, s.last())[a];
                assert(t.contains(u[k]));
                let m = choose|m: int| 0 <= m < t.len() && t[m] == u[k];
                assert(s[m] == t[m]);
            }
        }
    }
}

proof fn lemma_shown_positions_shown(ranks: Seq<RelationRank>, n: nat)
    requires
        n <= ranks.len(),
        ranks.len() <= usize::MAX,
    ensures
        forall|a: int| 0 <= a < shown_positions(ranks, n).len() ==> {
            let p = #[trigger] shown_positions(ranks, n)[a];
            p < n && shown_relation(ranks[p as int])
        },
    decreases n,
{
    if n > 0 {
        lemma_shown_positions_shown(ranks, (n - 1) as nat);
        let p = shown_positions(ranks, (n - 1) as nat);
        if shown_relation(ranks[n - 1]) {
            assert forall|a: int| 0 <= a < p.push((n - 1) as usize).len() implies {
                let q = #[trigger] p.push((n - 1) as usize)[a];
                q < n && shown_relation(ranks[q as int])
            } by {
                if a < p.len() {
                    assert(p.push((n - 1) as usize)[a] == p[a]);
                }
            }
        }
    }
}

/// The relations the prompt shows are all shown ones, none denied, outdated
/// or below the confidence floor; and none comes before one that ranks
/// above it.
pub proof fn lemma_social_context_shown_and_ordered(ranks: Seq<RelationRank>)
    requires
        ranks.len() <= usize::MAX,
    ensures
        relations_in_order(ranks, social_context_positions(ranks)),
        social_context_positions(ranks).len() <= SOCIAL_CONTEXT_SIZE,
        forall|a: int| 0 <= a < social_context_positions(ranks).len() ==> {
            let p = #[trigger] social_context_positions(ranks)[a];
            p < ranks.len() && shown_relation(ranks[p as int])
        },
{
    let sp = shown_positions(ranks, ranks.len());
    lemma_shown_positions_shown(ranks, ranks.len());
    lemma_relations_sorted_members(ranks, sp);
    let all = relations_sorted(ranks, sp);
    let r = social_context_positions(ranks);
    assert forall|a: int| 0 <= a < r.len() implies {
        let p = #[trigger] r[a];
        p < ranks.len() && shown_relation(ranks[p as int])
    } by {
        assert(r[a] == all[a]);
        assert(sp.contains(all[a]));
        let m = choose|m: int| 0 <= m < sp.len() && sp[m] == all[a];
        assert(sp[m] < ranks.len() && shown_relation(ranks[sp[m] as int]));
    }
    assert forall|a: int, b: int| 0 <= a < b < r.len() implies !relation_before(ranks, #[trigger] r[b], #[trigger] r[a]) by {
        assert(r[a] == all[a] && r[b] == all[b]);
    }
}

// ---------------------------------------------------------------------------
// Thoughts shown in the prompt
// ---------------------------------------------------------------------------

/// What ordering thoughts reads of one: importance and confidence in
/// millionths, and when it was had.
#[derive(Clone, Copy, Debug)]
pub struct ThoughtRank {
    pub importance_micros: i64,
    pub confidence_micros: i64,
    pub timestamp: i64,
}

/// The most thoughts the prompt shows.
pub const THOUGHT_CONTEXT_SIZE: usize = 5;

/// In the first ordering, the thought at `a` comes strictly before the one
/// at `b`: more important, then more confident, then more recent. In the
/// second, it was had strictly earlier.
pub open spec fn thought_precedes(t: Seq<ThoughtRank>, by_time: bool, a: usize, b: usize) -> bool {
    let x = t[a as int];
    let y = t[b as int];
    if by_time {
        x.timestamp < y.timestamp
    } else {
        x.importance_micros > y.importance_micros || (x.importance_micros == y.importance_micros && (
        x.confidence_micros > y.confidence_micros || (x.confidence_micros == y.confidence_micros
            && x.timestamp > y.timestamp)))
    }
}

/// Inserts a position after every position it does not strictly precede.
pub open spec fn thought_insert(t: Seq<ThoughtRank>, by_time: bool, s: Seq<usize>, x: usize) -> Seq<usize>
    decreases s.len(),
{
    if s.len() == 0 {
        seq![x]
    } else if thought_precedes(t, by_time, x, s.last()) {
        thought_insert(t, by_time, s.drop_last(), x).push(s.last())
    } else {
        s.push(x)
    }
}

/// The positions stably sorted by one of the two orderings.
pub open spec fn thoughts_sorted(t: Seq<ThoughtRank>, by_time: bool, s: Seq<usize>) -> Seq<usize>
    decreases s.len(),
{
    if s.len() == 0 {
        Seq::empty()
    } else {
        thought_insert(t, by_time, thoughts_sorted(t, by_time, s.drop_last()), s.last())
    }
}

/// The subjects whose recent thoughts the prompt gathers, in the order it
/// asks: the profile, the person, then the identity, each where known.
/// With none of them, the prompt takes the most recent thoughts instead.
pub open spec fn thought_subjects_spec(identity: Option<String>, profile: Option<String>, person: Option<String>) -> Seq<
    (crate::model::MemorySubjectType, Seq<char>),
> {
    let a = match profile {
        Some(p) => seq![(crate::model::MemorySubjectType::Profile, p@)],
        None => Seq::empty(),
    };
    let b = match person {
        Some(p) => seq![(crate::model::MemorySubjectType::Person, p@)],
        None => Seq::empty(),
    };
    let c = match identity {
        Some(i) => seq![(crate::model::MemorySubjectType::Identity, i@)],
        None => Seq::empty(),
    };
    a + b + c
}

pub fn thought_subjects(identity: &Option<String>, profile: &Option<String>, person: &Option<String>) -> (r: Vec<
    (crate::model::MemorySubjectType, String),
>)
    ensures
        r@.map_values(|e: (crate::model::MemorySubjectType, String)| (e.0, e.1@)) == thought_subjects_spec(
            *identity,
            *profile,
            *person,
        ),
{
    let mut r: Vec<(crate::model::MemorySubjectType, String)> = Vec::new();
    if let Some(p) = profile {
        r.push((crate::model::MemorySubjectType::Profile, p.clone()));
    }
    if let Some(p) = person {
        r.push((crate::model::MemorySubjectType::Person, p.clone()));
    }
    if let Some(i) = identity {
        r.push((crate::model::MemorySubjectType::Identity, i.clone()));
    }
    assert(r@.map_values(|e: (crate::model::MemorySubjectType, String)| (e.0, e.1@)) =~= thought_subjects_spec(
        *identity,
        *profile,
        *person,
    ));
    r
}

/// What tells two thoughts apart: `"{timestamp}:{action_id}:{content}"`,
/// with an empty action id where there is none.
pub open spec fn thought_key_spec(timestamp: i64, action_id: Option<String>, content: Seq<char>) -> Seq<char> {
    crate::formats::signed_decimal(timestamp as int) + ":"@ + match action_id {
        Some(a) => a@,
        None => Seq::empty(),
    } + ":"@ + content
}

pub fn thought_key(timestamp: i64, action_id: &Option<String>, content: &str) -> (r: String)
    ensures
        r@ == thought_key_spec(timestamp, *action_id, content@),
{
    let mut out = String::new();
    crate::formats::push_signed_decimal(&mut out, timestamp);
    append_str(&mut out, ":");
    match action_id {
        Some(a) => append_str(&mut out, a.as_str()),
        None => {},
    }
    append_str(&mut out, ":");
    append_str(&mut out, content);
    proof {
        assert(Seq::<char>::empty() + crate::formats::signed_decimal(timestamp as int) =~= crate::formats::signed_decimal(
            timestamp as int,
        ));
        match action_id {
            Some(a) => {},
            None => {
                assert(crate::formats::signed_decimal(timestamp as int) + ":"@ =~= crate::formats::signed_decimal(
                    timestamp as int,
                ) + ":"@ + Seq::<char>::empty());
            },
        }
    }
    out
}

/// Gathering thoughts subject by subject keeps each thought once: the keys
/// seen so far (`thought_key`), and the positions of a batch's thoughts
/// whose key is new (the first of equal keys), each added to the keys seen.
pub open spec fn fresh_thoughts(held: Seq<Seq<char>>, ids: Seq<Seq<char>>) -> (Seq<Seq<char>>, Seq<usize>)
    decreases ids.len(),
{
    if ids.len() == 0 {
        (held, Seq::empty())
    } else {
        let (h, p) = fresh_thoughts(held, ids.drop_last());
        if h.contains(ids.last()) {
            (h, p)
        } else {
            (h.push(ids.last()), p.push((ids.len() - 1) as usize))
        }
    }
}

/// `append_subject_thoughts`' dedupe, on the keys of a batch of thoughts:
/// the positions of those to add, with `seen` updated.
pub fn unseen_thought_positions(seen: &mut Vec<String>, ids: &Vec<String>) -> (r: Vec<usize>)
    ensures
        (keys_view(final(seen)@), r@) == fresh_thoughts(keys_view(old(seen)@), keys_view(ids@)),
{
    let ghost held = keys_view(seen@);
    let mut out: Vec<usize> = Vec::new();
    let mut i: usize = 0;
    while i < ids.len()
        invariant
            0 <= i <= ids@.len(),
            (keys_view(seen@), out@) == fresh_thoughts(held, keys_view(ids@).take(i as int)),
        decreases ids@.len() - i,
    {
        let ghost before = seen@;
        proof {
            let t = keys_view(ids@).take(i + 1);
            assert(t.drop_last() =~= keys_view(ids@).take(i as int));
            assert(t.last() == ids@[i as int]@);
        }
        if !crate::session::holds_key(seen, &ids[i]) {
            seen.push(ids[i].clone());
            out.push(i);
            assert(keys_view(seen@) =~= keys_view(before).push(ids@[i as int]@));
        }
        i = i + 1;
    }
    assert(keys_view(ids@).take(ids@.len() as int) =~= keys_view(ids@));
    out
}

/// A thought is gathered at most once: the keys of the positions kept are
/// neither among those seen before nor repeated, and the keys seen after
/// are those seen before followed by the kept ones.
pub proof fn lemma_thoughts_gathered_once(held: Seq<Seq<char>>, ids: Seq<Seq<char>>)
    requires
        ids.len() <= usize::MAX,
    ensures
        ({
            let (h, p) = fresh_thoughts(held, ids);
            &&& h == held + p.map_values(|k: usize| ids[k as int])
            &&& forall|a: int| 0 <= a < p.len() ==> #[trigger] p[a] < ids.len() && !held.contains(ids[p[a] as int])
            &&& forall|a: int, b: int|
                0 <= a < b < p.len() ==> p[a] < p[b] && ids[#[trigger] p[a] as int] != ids[#[trigger] p[b] as int]
        }),
    decreases ids.len(),
{
    if ids.len() > 0 {
        let n = ids.len() as int;
        let d = ids.drop_last();
        lemma_thoughts_gathered_once(held, d);
        let (h0, p0) = fresh_thoughts(held, d);
        assert forall|a: int| 0 <= a < p0.len() implies d[#[trigger] p0[a] as int] == ids[p0[a] as int] by {}
        assert(p0.map_values(|k: usize| d[k as int]) =~= p0.map_values(|k: usize| ids[k as int]));
        let (h, p) = fresh_thoughts(held, ids);
        let id = ids.last();
        if !h0.contains(id) {
            assert(p == p0.push((n - 1) as usize));
            assert(h == h0.push(id));
            assert(p.map_values(|k: usize| ids[k as int]) =~= p0.map_values(|k: usize| ids[k as int]).push(id));
            assert(h =~= held + p.map_values(|k: usize| ids[k as int]));
            assert(!held.contains(id)) by {
                if held.contains(id) {
                    let t = choose|t: int| 0 <= t < held.len() && held[t] == id;
                    assert(h0[t] == id);
                }
            }
            assert forall|a: int| 0 <= a < p.len() implies #[trigger] p[a] < ids.len() && !held.contains(ids[p[a] as int]) by {
                if a < p0.len() {
                    assert(p[a] == p0[a]);
                }
            }
            assert forall|a: int, b: int| 0 <= a < b < p.len() implies p[a] < p[b] && ids[#[trigger] p[a] as int]
                != ids[#[trigger] p[b] as int] by {
                assert(p[a] == p0[a]);
                if b < p0.len() {
                    assert(p[b] == p0[b]);
                } else {
                    assert(h0[held.len() + a] == ids[p0[a] as int]);
                }
            }
        }
    }
}

/// The positions `0..n`.
pub open spec fn positions(n: nat) -> Seq<usize> {
    Seq::new(n, |i: int| i as usize)
}

/// `fetch_thoughts`' order and cut: the five most important thoughts (then
/// most confident, then most recent), shown oldest first.
pub open spec fn thought_context_positions(t: Seq<ThoughtRank>) -> Seq<usize> {
    let best = thoughts_sorted(t, false, positions(t.len()));
    let top = if best.len() > THOUGHT_CONTEXT_SIZE {
        best.take(THOUGHT_CONTEXT_SIZE as int)
    } else {
        best
    };
    thoughts_sorted(t, true, top)
}

proof fn lemma_thought_insert_at(t: Seq<ThoughtRank>, by_time: bool, s: Seq<usize>, x: usize, j: int)
    requires
        0 <= j <= s.len(),
        j == 0 || !thought_precedes(t, by_time, x, s[j - 1]),
        forall|k: int| j <= k < s.len() ==> thought_precedes(t, by_time, x, #[trigger] s[k]),
    ensures
        thought_insert(t, by_time, s, x) == s.take(j).push(x) + s.skip(j),
    decreases s.len(),
{
    if s.len() == 0 {
        assert(s.take(j).push(x) + s.skip(j) =~= seq![x]);
    } else if j == s.len() {
        assert(s.take(j).push(x) + s.skip(j) =~= s.push(x));
    } else {
        assert(thought_precedes(t, by_time, x, s[s.len() - 1]));
        let u = s.drop_last();
        assert forall|k: int| j <= k < u.len() implies thought_precedes(t, by_time, x, #[trigger] u[k]) by {
            assert(u[k] == s[k]);
        }
        if j > 0 {
            assert(u[j - 1] == s[j - 1]);
        }
        lemma_thought_insert_at(t, by_time, u, x, j);
        assert(u.take(j).push(x) + u.skip(j) + seq![s.last()] =~= s.take(j).push(x) + s.skip(j));
    }
}

fn thought_precedes_exec(t: &Vec<ThoughtRank>, by_time: bool, a: usize, b: usize) -> (r: bool)
    requires
        a < t@.len(),
        b < t@.len(),
    ensures
        r == thought_precedes(t@, by_time, a, b),
{
    let x = t[a];
    let y = t[b];
    if by_time {
        x.timestamp < y.timestamp
    } else {
        x.importance_micros > y.importance_micros || (x.importance_micros == y.importance_micros && (
        x.confidence_micros > y.confidence_micros || (x.confidence_micros == y.confidence_micros
            && x.timestamp > y.timestamp)))
    }
}

/// Stably sorts positions of `t` by one of the two orderings.
fn sort_thought_positions(t: &Vec<ThoughtRank>, by_time: bool, items: &Vec<usize>) -> (r: Vec<usize>)
    requires
        forall|k: int| 0 <= k < items@.len() ==> #[trigger] items@[k] < t@.len(),
    ensures
        r@ == thoughts_sorted(t@, by_time, items@),
        forall|k: int| 0 <= k < r@.len() ==> #[trigger] r@[k] < t@.len(),
{
    let mut out: Vec<usize> = Vec::new();
    let mut i: usize = 0;
    while i < items.len()
        invariant
            0 <= i <= items@.len(),
            forall|k: int| 0 <= k < items@.len() ==> #[trigger] items@[k] < t@.len(),
            out@ == thoughts_sorted(t@, by_time, items@.take(i as int)),
            forall|k: int| 0 <= k < out@.len() ==> #[trigger] out@[k] < t@.len(),
        decreases items@.len() - i,
    {
        let x = items[i];
        let ghost before = out@;
        let mut j: usize = out.len();
        while j > 0 && thought_precedes_exec(t, by_time, x, out[j - 1])
            invariant
                x < t@.len(),
                0 <= j <= out@.len(),
                out@ == before,
                forall|k: int| 0 <= k < out@.len() ==> #[trigger] out@[k] < t@.len(),
                forall|k: int| j <= k < out@.len() ==> thought_precedes(t@, by_time, x, #[trigger] out@[k]),
            decreases j,
        {
            j = j - 1;
        }
        proof {
            lemma_thought_insert_at(t@, by_time, out@, x, j as int);
            assert(items@.take(i + 1).drop_last() =~= items@.take(i as int));
            assert(items@.take(i + 1).last() == x);
        }
        out.insert(j, x);
        proof {
            assert forall|k: int| 0 <= k < out@.len() implies #[trigger] out@[k] < t@.len() by {
                if k < j {
                    assert(out@[k] == before[k]);
                } else if k > j {
                    assert(out@[k] == before[k - 1]);
                }
            }
        }
        i = i + 1;
    }
    assert(items@.take(items@.len() as int) =~= items@);
    out
}

/// `fetch_thoughts`' order and cut, on the thoughts gathered: the positions
/// of the five most important (then most confident, then most recent, ties
/// in gathered order), listed oldest first.
pub fn thought_order(t: &Vec<ThoughtRank>) -> (r: Vec<usize>)
    ensures
        r@ == thought_context_positions(t@),
{
    let mut all: Vec<usize> = Vec::new();
    let mut i: usize = 0;
    while i < t.len()
        invariant
            0 <= i <= t@.len(),
            all@ == positions(i as nat),
        decreases t@.len() - i,
    {
        all.push(i);
        i = i + 1;
        assert(all@ =~= positions(i as nat));
    }
    let mut best = sort_thought_positions(t, false, &all);
    best.truncate(THOUGHT_CONTEXT_SIZE);
    let ghost full = thoughts_sorted(t@, false, positions(t@.len()));
    assert(best@ == if full.len() > THOUGHT_CONTEXT_SIZE {
        full.take(THOUGHT_CONTEXT_SIZE as int)
    } else {
        full
    });
    sort_thought_positions(t, true, &best)
}

/// No position comes after one it should precede.
pub open spec fn thoughts_in_order(t: Seq<ThoughtRank>, by_time: bool, s: Seq<usize>) -> bool {
    forall|a: int, b: int| 0 <= a < b < s.len() ==> !thought_precedes(t, by_time, #[trigger] s[b], #[trigger] s[a])
}

proof fn lemma_thought_insert_members(t: Seq<ThoughtRank>, by_time: bool, s: Seq<usize>, x: usize, a: int)
    requires
        0 <= a < thought_insert(t, by_time, s, x).len(),
    ensures
        thought_insert(t, by_time, s, x).len() == s.len() + 1,
        thought_insert(t, by_time, s, x)[a] == x || exists|k: int| 0 <= k < s.len() && s[k] == thought_insert(t, by_time, s, x)[a],
    decreases s.len(),
{
    if s.len() == 0 {
    } else if thought_precedes(t, by_time, x, s.last()) {
        let u = s.drop_last();
        if a < thought_insert(t, by_time, u, x).len() {
            lemma_thought_insert_members(t, by_time, u, x, a);
            if thought_insert(t, by_time, s, x)[a] != x {
                let k = choose|k: int| 0 <= k < u.len() && u[k] == thought_insert(t, by_time, u, x)[a];
                assert(s[k] == u[k]);
            }
        } else {
            lemma_thought_insert_members(t, by_time, u, x, 0);
            assert(thought_insert(t, by_time, s, x)[a] == s[s.len() - 1]);
        }
    } else {
        if a < s.len() {
            assert(thought_insert(t, by_time, s, x)[a] == s[a]);
        }
    }
}

proof fn lemma_thought_insert_in_order(t: Seq<ThoughtRank>, by_time: bool, s: Seq<usize>, x: usize)
    requires
        thoughts_in_order(t, by_time, s),
    ensures
        thoughts_in_order(t, by_time, thought_insert(t, by_time, s, x)),
        thought_insert(t, by_time, s, x).len() == s.len() + 1,
    decreases s.len(),
{
    if s.len() == 0 {
    } else if thought_precedes(t, by_time, x, s.last()) {
        let u = s.drop_last();
        assert(thoughts_in_order(t, by_time, u)) by {
            assert forall|a: int, b: int| 0 <= a < b < u.len() implies !thought_precedes(t, by_time, #[trigger] u[b], #[trigger] u[a]) by {
                assert(u[a] == s[a] && u[b] == s[b]);
            }
        }
        lemma_thought_insert_in_order(t, by_time, u, x);
        let v = thought_insert(t, by_time, u, x);
        let r = v.push(s.last());
        assert forall|a: int, b: int| 0 <= a < b < r.len() implies !thought_precedes(t, by_time, #[trigger] r[b], #[trigger] r[a]) by {
            if b < v.len() {
                assert(r[a] == v[a] && r[b] == v[b]);
            } else {
                assert(r[b] == s.last());
                lemma_thought_insert_members(t, by_time, u, x, a);
                if r[a] != x {
                    let k = choose|k: int| 0 <= k < u.len() && u[k] == v[a];
                    assert(s[k] == r[a]);
                    assert(!thought_precedes(t, by_time, s[s.len() - 1], s[k]));
                }
            }
        }
    } else {
        let r = s.push(x);
        assert forall|a: int, b: int| 0 <= a < b < r.len() implies !thought_precedes(t, by_time, #[trigger] r[b], #[trigger] r[a]) by {
            if b < s.len() {
                assert(r[a] == s[a] && r[b] == s[b]);
            } else {
                assert(r[a] == s[a]);
                if a < s.len() - 1 {
                    assert(!thought_precedes(t, by_time, s[s.len() - 1], s[a]));
                }
            }
        }
    }
}

proof fn lemma_thoughts_sorted_in_order(t: Seq<ThoughtRank>, by_time: bool, s: Seq<usize>)
    ensures
        thoughts_in_order(t, by_time, thoughts_sorted(t, by_time, s)),
        thoughts_sorted(t, by_time, s).len() == s.len(),
    decreases s.len(),
{
    if s.len() > 0 {
        lemma_thoughts_sorted_in_order(t, by_time, s.drop_last());
        lemma_thought_insert_in_order(t, by_time, thoughts_sorted(t, by_time, s.drop_last()), s.last());
    }
}

/// The prompt shows at most five thoughts, as many as there are up to that,
/// oldest first.
pub proof fn lemma_thoughts_shown_oldest_first(t: Seq<ThoughtRank>)
    ensures
        thoughts_in_order(t, true, thought_context_positions(t)),
        thought_context_positions(t).len() == if t.len() > THOUGHT_CONTEXT_SIZE {
            THOUGHT_CONTEXT_SIZE as nat
        } else {
            t.len()
        },
{
    let best = thoughts_sorted(t, false, positions(t.len()));
    lemma_thoughts_sorted_in_order(t, false, positions(t.len()));
    let top = if best.len() > THOUGHT_CONTEXT_SIZE {
        best.take(THOUGHT_CONTEXT_SIZE as int)
    } else {
        best
    };
    lemma_thoughts_sorted_in_order(t, true, top);
}

} // verus!
