//! The decisions of a session's run: how often an action is retried, when a
//! turn or the session ends, what the model is shown of attachments, and
//! what the session hands back.
use vstd::prelude::*;
use crate::model::{ActionKind, InboundMessage, MediaAttachment, MediaKind, SessionKind};
use crate::session::SessionState;
use crate::text::{append_str, is_prefix, starts_with};
use crate::tools::decision::MindVerdict;

verus! {

/// What running a tool gives back: text for the model, or the mind's
/// decision.
pub enum ToolOutcome {
    Result(String),
    Decision(MindVerdict),
}

/// Why the model stopped producing a turn.
#[derive(PartialEq, Eq, Structural, Clone, Copy, Debug)]
pub enum FinishReason {
    Stop,
    ToolCalls,
    Length,
    ContentFilter,
}

impl FinishReason {
    pub open spec fn spec_name(self) -> Seq<char> {
        match self {
            FinishReason::Stop => "stop"@,
            FinishReason::ToolCalls => "tool_calls"@,
            FinishReason::Length => "length"@,
            FinishReason::ContentFilter => "content_filter"@,
        }
    }
}

/// `finish_reason_name`: the name a turn record keeps.
pub fn finish_reason_name(reason: FinishReason) -> (r: &'static str)
    ensures
        r@ == reason.spec_name(),
{
    match reason {
        FinishReason::Stop => "stop",
        FinishReason::ToolCalls => "tool_calls",
        FinishReason::Length => "length",
        FinishReason::ContentFilter => "content_filter",
    }
}

pub open spec fn expects_response_spec(kind: SessionKind) -> bool {
    match kind {
        SessionKind::Action(k) => k.spec_expects_response(),
        SessionKind::Mind => false,
    }
}

/// Whether the session must end with a visible message.
pub fn expects_response(kind: SessionKind) -> (r: bool)
    ensures
        r == expects_response_spec(kind),
{
    match kind {
        SessionKind::Action(k) => k.expects_response(),
        SessionKind::Mind => false,
    }
}

/// How many attempts a session gets: the configured number for an action
/// that must answer, else one.
pub fn max_attempts(kind: SessionKind, configured: usize) -> (r: usize)
    ensures
        r == if expects_response_spec(kind) {
            configured
        } else {
            1
        },
{
    if expects_response(kind) {
        configured
    } else {
        1
    }
}

/// A retry past `escalate_after` moves to a stronger reasoning tier.
pub fn escalates(attempt: usize, expects: bool, escalate_after: usize) -> (r: bool)
    ensures
        r == (attempt > 1 && expects && attempt > escalate_after),
{
    attempt > 1 && expects && attempt > escalate_after
}

/// The warning a retry starts with.
pub open spec fn retry_warning_text() -> Seq<char> {
    "IMPORTANT: Your previous attempt failed to call send_message. You MUST use send_message to respond. Text outside of tool calls is silent inner thought that no one can see or hear."@
}

pub fn retry_warning(attempt: usize) -> (r: Option<&'static str>)
    ensures
        attempt > 1 ==> r is Some && r->0@ == retry_warning_text(),
        attempt <= 1 ==> r is None,
{
    if attempt > 1 {
        Some(
            "IMPORTANT: Your previous attempt failed to call send_message. You MUST use send_message to respond. Text outside of tool calls is silent inner thought that no one can see or hear.",
        )
    } else {
        None
    }
}

/// The note the model gets when attachments need vision it does not have.
pub fn vision_unavailable_note(needs_vision: bool, vision_supported: bool) -> (r: Option<&'static str>)
    ensures
        r is Some <==> (needs_vision && !vision_supported),
        r is Some ==> r->0@ == "The current inference configuration cannot inspect visual attachments. Use the visible attachment metadata only; do not claim to have seen image, video, or sticker contents."@,
{
    if needs_vision && !vision_supported {
        Some(
            "The current inference configuration cannot inspect visual attachments. Use the visible attachment metadata only; do not claim to have seen image, video, or sticker contents.",
        )
    } else {
        None
    }
}

/// A turn with a decision from the mind, or without tool calls, ends the
/// attempt.
pub fn turn_stops_before_tools(has_decision: bool, tool_calls: usize) -> (r: bool)
    ensures
        r == (has_decision || tool_calls == 0),
{
    has_decision || tool_calls == 0
}

/// Messages that arrived meanwhile are shown unless an answering action has
/// already answered or tried to.
pub open spec fn shows_pending(expects: bool, state: SessionState) -> bool {
    !(expects && (state.responded || state.attempted_send))
}

pub fn shows_pending_messages(expects: bool, state: &SessionState) -> (r: bool)
    ensures
        r == shows_pending(expects, *state),
{
    !(expects && (state.responded || state.attempted_send))
}

/// The note shown before each message that arrived while the session worked.
pub fn injection_notice() -> (r: &'static str)
    ensures
        r@ == "--- New message arrived while you were working. Address it before finishing. ---"@,
{
    "--- New message arrived while you were working. Address it before finishing. ---"
}

/// After its tools ran, a turn ends the attempt on a decision or when the
/// model stopped or ran out of room.
pub fn turn_stops_after_tools(got_decision: bool, finish: FinishReason) -> (r: bool)
    ensures
        r == (got_decision || finish == FinishReason::Stop || finish == FinishReason::Length),
{
    got_decision || match finish {
        FinishReason::Stop => true,
        FinishReason::Length => true,
        _ => false,
    }
}

/// The session ends after an attempt unless an answering action neither
/// answered nor tried to and has attempts left.
pub open spec fn session_ends(cancelled: bool, state: SessionState, expects: bool, attempt: usize, max: usize) -> bool {
    cancelled || state.responded || state.attempted_send || !expects || attempt >= max
}

pub fn session_done(cancelled: bool, state: &SessionState, expects: bool, attempt: usize, max: usize) -> (r: bool)
    ensures
        r == session_ends(cancelled, *state, expects, attempt, max),
{
    cancelled || state.responded || state.attempted_send || !expects || attempt >= max
}

/// An action that tried to deliver is never retried, even when the delivery
/// failed; and no session runs past its attempts.
pub proof fn lemma_retries_stop(cancelled: bool, state: SessionState, expects: bool, attempt: usize, max: usize)
    ensures
        state.attempted_send ==> session_ends(cancelled, state, expects, attempt, max),
        attempt >= max ==> session_ends(cancelled, state, expects, attempt, max),
        !expects ==> session_ends(cancelled, state, expects, attempt, max),
{
}

/// What happens to the composing indicator when the session ends.
#[derive(PartialEq, Eq, Structural, Clone, Copy, Debug)]
pub enum ComposingEnd {
    Release,
    Disarm,
}

/// The mind always releases it; an action releases it unless a send did.
pub fn composing_end(kind: SessionKind, state: &SessionState) -> (r: ComposingEnd)
    ensures
        r == match kind {
            SessionKind::Mind => ComposingEnd::Release,
            SessionKind::Action(_) => if state.composing_released {
                ComposingEnd::Disarm
            } else {
                ComposingEnd::Release
            },
        },
{
    match kind {
        SessionKind::Mind => ComposingEnd::Release,
        SessionKind::Action(_) => if state.composing_released {
            ComposingEnd::Disarm
        } else {
            ComposingEnd::Release
        },
    }
}

// ---------------------------------------------------------------------------
// Attachments the model sees
// ---------------------------------------------------------------------------

pub open spec fn requires_vision_spec(kind: MediaKind) -> bool {
    kind == MediaKind::Image || kind == MediaKind::Video || kind == MediaKind::Sticker
}

/// Images, videos and stickers need a model that sees.
pub fn requires_vision(kind: MediaKind) -> (r: bool)
    ensures
        r == requires_vision_spec(kind),
{
    match kind {
        MediaKind::Image => true,
        MediaKind::Video => true,
        MediaKind::Sticker => true,
        _ => false,
    }
}

/// Some attachment of the messages needs vision.
pub open spec fn needs_vision(ms: Seq<InboundMessage>) -> bool {
    exists|i: int, j: int|
        0 <= i < ms.len() && 0 <= j < ms[i].attachments@.len() && requires_vision_spec(
            (#[trigger] ms[i].attachments@[j]).kind,
        )
}

fn any_needs_vision(ms: &Vec<InboundMessage>) -> (r: bool)
    ensures
        r == needs_vision(ms@),
{
    let mut i: usize = 0;
    while i < ms.len()
        invariant
            0 <= i <= ms.len(),
            forall|a: int, b: int|
                0 <= a < i && 0 <= b < ms@[a].attachments@.len() ==> !requires_vision_spec(
                    (#[trigger] ms@[a].attachments@[b]).kind,
                ),
        decreases ms.len() - i,
    {
        let atts = &ms[i].attachments;
        let mut j: usize = 0;
        while j < atts.len()
            invariant
                0 <= i < ms.len(),
                0 <= j <= atts@.len(),
                *atts == ms@[i as int].attachments,
                forall|b: int| 0 <= b < j ==> !requires_vision_spec((#[trigger] atts@[b]).kind),
            decreases atts.len() - j,
        {
            if requires_vision(atts[j].kind) {
                assert(requires_vision_spec(ms@[i as int].attachments@[j as int].kind));
                return true;
            }
            j = j + 1;
        }
        i = i + 1;
    }
    false
}

/// `required_capabilities`: vision when any own or injected message carries
/// an image, video or sticker.
pub fn required_vision(messages: &Vec<InboundMessage>, injected: &Vec<InboundMessage>) -> (r: bool)
    ensures
        r == (needs_vision(messages@) || needs_vision(injected@)),
{
    any_needs_vision(messages) || any_needs_vision(injected)
}

/// An image or sticker, or anything with an image MIME type, can go to the
/// model as a picture.
pub open spec fn embeddable(a: MediaAttachment) -> bool {
    a.kind == MediaKind::Image || a.kind == MediaKind::Sticker || match a.mime {
        Some(m) => is_prefix("image/"@, m@),
        None => false,
    }
}

pub fn can_embed_as_vision_input(a: &MediaAttachment) -> (r: bool)
    ensures
        r == embeddable(*a),
{
    match a.kind {
        MediaKind::Image => true,
        MediaKind::Sticker => true,
        _ => match &a.mime {
            Some(m) => starts_with(m.as_str(), "image/"),
            None => false,
        },
    }
}

/// A URL the model can fetch itself: web addresses and inline images.
pub open spec fn model_visible(url: Seq<char>) -> bool {
    is_prefix("http://"@, url) || is_prefix("https://"@, url) || is_prefix("data:image/"@, url)
}

pub fn is_model_visible_url(url: &str) -> (r: bool)
    ensures
        r == model_visible(url@),
{
    starts_with(url, "http://") || starts_with(url, "https://") || starts_with(url, "data:image/")
}

/// The MIME type assumed for a picture without one.
pub fn default_visual_mime(kind: MediaKind) -> (r: &'static str)
    ensures
        r@ == if kind == MediaKind::Sticker {
            "image/webp"@
        } else {
            "image/png"@
        },
{
    match kind {
        MediaKind::Sticker => "image/webp",
        _ => "image/png",
    }
}

/// How one attachment reaches the model.
pub enum VisionInput {
    /// Not as a picture.
    Skip,
    /// By its own URL.
    Url(String),
    /// As inline data read from the media store, with this MIME type.
    StoredAsset(String, String),
}

/// `user_message_for_inbound`'s choice for one attachment: its URL when the
/// model can see it, else its stored asset, inlined.
pub fn vision_input(a: &MediaAttachment) -> (r: VisionInput)
    ensures
        !embeddable(*a) ==> r is Skip,
        embeddable(*a) && a.url is Some && model_visible(a.url->0@) ==> (r matches VisionInput::Url(u) && u@
            == a.url->0@),
        embeddable(*a) && !(a.url is Some && model_visible(a.url->0@)) && a.asset_id is Some ==> (r matches VisionInput::StoredAsset(
            id,
            mime,
        ) && id@ == a.asset_id->0@ && mime@ == match a.mime {
            Some(m) => m@,
            None => if a.kind == MediaKind::Sticker {
                "image/webp"@
            } else {
                "image/png"@
            },
        }),
        embeddable(*a) && !(a.url is Some && model_visible(a.url->0@)) && a.asset_id is None ==> r is Skip,
{
    if !can_embed_as_vision_input(a) {
        return VisionInput::Skip;
    }
    match &a.url {
        Some(u) => if is_model_visible_url(u.as_str()) {
            return VisionInput::Url(u.clone());
        },
        None => {},
    }
    match &a.asset_id {
        Some(id) => {
            let mime = match &a.mime {
                Some(m) => m.clone(),
                None => crate::text::owned(default_visual_mime(a.kind)),
            };
            VisionInput::StoredAsset(id.clone(), mime)
        },
        None => VisionInput::Skip,
    }
}

/// One part of a user message as the model reads it.
pub enum ContentPart {
    Text(String),
    ImageUrl(String),
}

/// The MIME type an inlined picture is sent with.
pub open spec fn inline_mime(a: MediaAttachment) -> Seq<char> {
    match a.mime {
        Some(m) => m@,
        None => if a.kind == MediaKind::Sticker {
            "image/webp"@
        } else {
            "image/png"@
        },
    }
}

/// The picture an attachment adds to its message: its own URL when the
/// model can see it; else, for a stored asset, the bytes read for it,
/// inlined; else none (also when the bytes could not be read).
pub open spec fn attachment_image(a: MediaAttachment, stored: Option<Vec<u8>>) -> Option<Seq<char>> {
    if !embeddable(a) {
        None
    } else if a.url is Some && model_visible(a.url->0@) {
        Some(a.url->0@)
    } else if a.asset_id is Some {
        match stored {
            Some(b) => Some("data:"@ + inline_mime(a) + ";base64,"@ + crate::formats::base64_text(b@)),
            None => None,
        }
    } else {
        None
    }
}

/// The pictures of the first `n` attachments, in order.
pub open spec fn attachment_images(atts: Seq<MediaAttachment>, stored: Seq<Option<Vec<u8>>>, n: nat) -> Seq<Seq<char>>
    decreases n,
{
    if n == 0 {
        Seq::empty()
    } else {
        let before = attachment_images(atts, stored, (n - 1) as nat);
        match attachment_image(atts[n - 1], stored[n - 1]) {
            Some(u) => before.push(u),
            None => before,
        }
    }
}

pub open spec fn image_part(p: ContentPart) -> Option<Seq<char>> {
    match p {
        ContentPart::ImageUrl(u) => Some(u@),
        ContentPart::Text(_) => None,
    }
}

/// `user_message_for_inbound`'s parts: the message's text, then the picture
/// of each attachment that gives one. `stored[k]` is what the media store
/// gave for attachment `k`'s asset (none when it has none or it failed).
pub fn user_message_parts(display: &String, attachments: &Vec<MediaAttachment>, stored: Vec<Option<Vec<u8>>>) -> (r: Vec<
    ContentPart,
>)
    requires
        stored@.len() == attachments@.len(),
        forall|k: int| 0 <= k < stored@.len() && #[trigger] stored@[k] is Some ==> stored@[k]->0@.len() <= usize::MAX / 2,
    ensures
        r@.len() >= 1,
        r@[0] matches ContentPart::Text(t) && t@ == display@,
        forall|k: int| 1 <= k < r@.len() ==> #[trigger] image_part(r@[k]) is Some,
        r@.skip(1).map_values(|p: ContentPart| image_part(p)->0) == attachment_images(
            attachments@,
            stored@,
            attachments@.len() as nat,
        ),
{
    let ghost all = stored@;
    let mut parts: Vec<ContentPart> = vec![ContentPart::Text(display.clone())];
    let mut rest = stored;
    let mut i: usize = 0;
    assert(rest@ =~= all.skip(0));
    assert(parts@.skip(1).map_values(|p: ContentPart| image_part(p)->0) =~= attachment_images(attachments@, all, 0));
    while i < attachments.len()
        invariant
            all.len() == attachments@.len(),
            forall|k: int| 0 <= k < all.len() && #[trigger] all[k] is Some ==> all[k]->0@.len() <= usize::MAX / 2,
            0 <= i <= attachments@.len(),
            rest@ == all.skip(i as int),
            parts@.len() >= 1,
            parts@[0] matches ContentPart::Text(t) && t@ == display@,
            forall|k: int| 1 <= k < parts@.len() ==> #[trigger] image_part(parts@[k]) is Some,
            parts@.skip(1).map_values(|p: ContentPart| image_part(p)->0) == attachment_images(attachments@, all, i as nat),
        decreases attachments@.len() - i,
    {
        let bytes = rest.remove(0);
        proof {
            assert(bytes == all[i as int]);
            assert(rest@ =~= all.skip(i + 1));
        }
        let a = &attachments[i];
        let ghost before = parts@;
        let picture: Option<String> = match vision_input(a) {
            VisionInput::Skip => None,
            VisionInput::Url(u) => Some(u),
            VisionInput::StoredAsset(_, mime) => match &bytes {
                Some(b) => Some(crate::formats::inline_image_url(mime.as_str(), b.as_slice())),
                None => None,
            },
        };
        proof {
            if picture is Some {
                assert(attachment_image(attachments@[i as int], all[i as int]) == Some(picture->0@));
            } else {
                assert(attachment_image(attachments@[i as int], all[i as int]) is None);
            }
        }
        match picture {
            Some(u) => {
                parts.push(ContentPart::ImageUrl(u));
                proof {
                    assert(parts@.skip(1) =~= before.skip(1).push(parts@[parts@.len() - 1]));
                    assert(parts@.skip(1).map_values(|p: ContentPart| image_part(p)->0) =~= before.skip(1).map_values(
                        |p: ContentPart| image_part(p)->0,
                    ).push(image_part(parts@[parts@.len() - 1])->0));
                }
            },
            None => {},
        }
        i = i + 1;
    }
    parts
}

// ---------------------------------------------------------------------------
// The session's result
// ---------------------------------------------------------------------------

/// What an action session reports.
pub struct Outcome {
    pub responded: bool,
    pub attempted_send: bool,
    pub cancelled: bool,
    /// Whether the session's relationship and state changes are kept.
    pub keeps_delta: bool,
    pub pending_messages: Vec<InboundMessage>,
    pub review_messages: Vec<InboundMessage>,
    pub thoughts: Vec<crate::model::Thought>,
    pub memories_formed: Vec<String>,
    pub recalled_memory_ids: Vec<String>,
    pub had_injections: bool,
    pub attempts: u32,
}

/// What a session reports: the mind's verdict, or an action's outcome.
pub enum SessionResult {
    Mind(MindVerdict),
    Action(Outcome),
}

/// `build_result`. A cancelled mind drops the event and a mind without a
/// verdict responds; a cancelled action never counts as responded and keeps
/// no changes. `delta_changed` says whether the session changed anything.
pub fn build_result(
    kind: SessionKind,
    state: SessionState,
    verdict: Option<MindVerdict>,
    attempts: usize,
    cancelled: bool,
    delta_changed: bool,
) -> (r: SessionResult)
    ensures
        kind is Mind && cancelled ==> r == SessionResult::Mind(MindVerdict::Drop),
        kind is Mind && !cancelled && verdict is Some ==> r == SessionResult::Mind(verdict->0),
        kind is Mind && !cancelled && verdict is None ==> r == SessionResult::Mind(
            MindVerdict::Respond { style_directive: None },
        ),
        kind is Action ==> (r matches SessionResult::Action(o) && {
            &&& o.responded == (!cancelled && state.responded)
            &&& o.attempted_send == state.attempted_send
            &&& o.cancelled == cancelled
            &&& o.keeps_delta == (!cancelled && delta_changed)
            &&& o.pending_messages@ == state.pending_injected_messages@
            &&& o.review_messages@ == state.presented_injected_messages@
            &&& o.thoughts@ == state.thoughts@
            &&& o.memories_formed@ == state.memories_formed@
            &&& o.recalled_memory_ids@ == state.recalled_memory_ids@
            &&& o.had_injections == (state.presented_injection_count > 0)
            &&& o.attempts == attempts as u32
        }),
{
    match kind {
        SessionKind::Mind => {
            if cancelled {
                SessionResult::Mind(MindVerdict::Drop)
            } else {
                match verdict {
                    Some(v) => SessionResult::Mind(v),
                    None => SessionResult::Mind(MindVerdict::Respond { style_directive: None }),
                }
            }
        },
        SessionKind::Action(_) => {
            let had_injections = state.presented_injection_count > 0;
            SessionResult::Action(
                Outcome {
                    responded: !cancelled && state.responded,
                    attempted_send: state.attempted_send,
                    cancelled,
                    keeps_delta: !cancelled && delta_changed,
                    pending_messages: state.pending_injected_messages,
                    review_messages: state.presented_injected_messages,
                    thoughts: state.thoughts,
                    memories_formed: state.memories_formed,
                    recalled_memory_ids: state.recalled_memory_ids,
                    had_injections,
                    attempts: attempts as u32,
                },
            )
        },
    }
}

// ---------------------------------------------------------------------------
// Collecting a streamed turn
// ---------------------------------------------------------------------------

/// A tool call as it streams in.
pub struct PartialToolCall {
    pub id: String,
    pub name: String,
    pub arguments: String,
}

/// One event of a streamed turn.
pub enum StreamEvent {
    TextDelta(String),
    ReasoningDelta(String),
    ToolCallBegin { index: usize, id: String, name: String },
    ToolCallDelta { index: usize, arguments_delta: String },
    Finish(FinishReason),
    Usage { input_tokens: u32, output_tokens: u32 },
}

/// What a streamed turn amounts to.
pub struct Collected {
    pub text: String,
    pub reasoning: String,
    pub partial_tools: Vec<PartialToolCall>,
    pub finish: FinishReason,
    pub input_tokens: Option<u32>,
    pub output_tokens: Option<u32>,
    pub decision: Option<MindVerdict>,
}

/// A tool call as plain values.
pub open spec fn partial_view(p: PartialToolCall) -> (Seq<char>, Seq<char>, Seq<char>) {
    (p.id@, p.name@, p.arguments@)
}

pub open spec fn partial_views(v: Seq<PartialToolCall>) -> Seq<(Seq<char>, Seq<char>, Seq<char>)> {
    v.map_values(|p: PartialToolCall| partial_view(p))
}

/// The tool calls grown, with empty ones, to hold `index`.
pub open spec fn grown(v: Seq<(Seq<char>, Seq<char>, Seq<char>)>, index: int) -> Seq<(Seq<char>, Seq<char>, Seq<char>)> {
    if v.len() > index {
        v
    } else {
        v + Seq::new((index + 1 - v.len()) as nat, |i: int| (Seq::<char>::empty(), Seq::<char>::empty(), Seq::<char>::empty()))
    }
}

/// The tool calls after one event: a begin sets the id and name it carries
/// (empty ones are ignored), a delta extends the arguments.
pub open spec fn tools_after(v: Seq<(Seq<char>, Seq<char>, Seq<char>)>, e: StreamEvent) -> Seq<(Seq<char>, Seq<char>, Seq<char>)> {
    match e {
        StreamEvent::ToolCallBegin { index, id, name } => {
            let g = grown(v, index as int);
            let old = g[index as int];
            g.update(
                index as int,
                (if id@.len() > 0 {
                    id@
                } else {
                    old.0
                }, if name@.len() > 0 {
                    name@
                } else {
                    old.1
                }, old.2),
            )
        },
        StreamEvent::ToolCallDelta { index, arguments_delta } => {
            let g = grown(v, index as int);
            let old = g[index as int];
            g.update(index as int, (old.0, old.1, old.2 + arguments_delta@))
        },
        _ => v,
    }
}

fn grow_to(tools: &mut Vec<PartialToolCall>, index: usize)
    ensures
        partial_views(final(tools)@) == grown(partial_views(old(tools)@), index as int),
        final(tools)@.len() > index,
{
    let ghost o = partial_views(old(tools)@);
    while tools.len() <= index
        invariant
            partial_views(tools@).len() >= o.len(),
            partial_views(tools@).subrange(0, o.len() as int) == o,
            forall|k: int|
                o.len() <= k < tools@.len() ==> #[trigger] partial_view(tools@[k]) == (
                    Seq::<char>::empty(),
                    Seq::<char>::empty(),
                    Seq::<char>::empty(),
                ),
            tools@.len() <= (if o.len() > index + 1 {
                o.len() as int
            } else {
                index + 1
            }),
        decreases index + 1 - tools.len(),
    {
        let ghost before = tools@;
        tools.push(PartialToolCall { id: String::new(), name: String::new(), arguments: String::new() });
        proof {
            assert(partial_views(tools@).subrange(0, o.len() as int) =~= partial_views(before).subrange(
                0,
                o.len() as int,
            ));
            assert forall|k: int| o.len() <= k < tools@.len() implies #[trigger] partial_view(tools@[k]) == (
                Seq::<char>::empty(),
                Seq::<char>::empty(),
                Seq::<char>::empty(),
            ) by {
                if k < before.len() {
                    assert(tools@[k] == before[k]);
                }
            }
        }
    }
    proof {
        let g = grown(o, index as int);
        assert(partial_views(tools@).len() == g.len());
        assert forall|k: int| 0 <= k < g.len() implies partial_views(tools@)[k] == g[k] by {
            if k < o.len() {
                assert(partial_views(tools@).subrange(0, o.len() as int)[k] == o[k]);
            } else {
                assert(partial_views(tools@)[k] == partial_view(tools@[k]));
            }
        }
        assert(partial_views(tools@) =~= g);
    }
}

/// Adds one streamed event to what the turn has collected.
pub fn collect_event(c: &mut Collected, e: StreamEvent)
    ensures
        final(c).text@ == match e {
            StreamEvent::TextDelta(d) => old(c).text@ + d@,
            _ => old(c).text@,
        },
        final(c).reasoning@ == match e {
            StreamEvent::ReasoningDelta(d) => old(c).reasoning@ + d@,
            _ => old(c).reasoning@,
        },
        partial_views(final(c).partial_tools@) == tools_after(partial_views(old(c).partial_tools@), e),
        final(c).finish == match e {
            StreamEvent::Finish(r) => r,
            _ => old(c).finish,
        },
        (final(c).input_tokens, final(c).output_tokens) == match e {
            StreamEvent::Usage { input_tokens, output_tokens } => (Some(input_tokens), Some(output_tokens)),
            _ => (old(c).input_tokens, old(c).output_tokens),
        },
        final(c).decision == old(c).decision,
{
    match e {
        StreamEvent::TextDelta(d) => append_str(&mut c.text, d.as_str()),
        StreamEvent::ReasoningDelta(d) => append_str(&mut c.reasoning, d.as_str()),
        StreamEvent::ToolCallBegin { index, id, name } => {
            let ghost g = grown(partial_views(old(c).partial_tools@), index as int);
            grow_to(&mut c.partial_tools, index);
            let ghost mid = c.partial_tools@;
            let mut entry = PartialToolCall { id: String::new(), name: String::new(), arguments: String::new() };
            std::mem::swap(&mut entry, &mut c.partial_tools[index]);
            if !id.as_str().is_empty() {
                entry.id = id;
            }
            if !name.as_str().is_empty() {
                entry.name = name;
            }
            let ghost ev = partial_view(entry);
            c.partial_tools.set(index, entry);
            proof {
                assert(partial_views(c.partial_tools@) =~= partial_views(mid).update(index as int, ev));
            }
        },
        StreamEvent::ToolCallDelta { index, arguments_delta } => {
            grow_to(&mut c.partial_tools, index);
            let ghost mid = c.partial_tools@;
            let mut entry = PartialToolCall { id: String::new(), name: String::new(), arguments: String::new() };
            std::mem::swap(&mut entry, &mut c.partial_tools[index]);
            append_str(&mut entry.arguments, arguments_delta.as_str());
            let ghost ev = partial_view(entry);
            c.partial_tools.set(index, entry);
            proof {
                assert(partial_views(c.partial_tools@) =~= partial_views(mid).update(index as int, ev));
            }
        },
        StreamEvent::Finish(r) => {
            c.finish = r;
        },
        StreamEvent::Usage { input_tokens, output_tokens } => {
            c.input_tokens = Some(input_tokens);
            c.output_tokens = Some(output_tokens);
        },
    }
}

/// A turn before any event: no text, no tool calls, finished by `Stop`.
pub fn new_collected() -> (c: Collected)
    ensures
        c.text@.len() == 0,
        c.reasoning@.len() == 0,
        c.partial_tools@.len() == 0,
        c.finish == FinishReason::Stop,
        c.input_tokens is None && c.output_tokens is None,
        c.decision is None,
{
    Collected {
        text: String::new(),
        reasoning: String::new(),
        partial_tools: Vec::new(),
        finish: FinishReason::Stop,
        input_tokens: None,
        output_tokens: None,
        decision: None,
    }
}

/// The text of a stream: its text deltas in order.
pub open spec fn stream_text(es: Seq<StreamEvent>) -> Seq<char>
    decreases es.len(),
{
    if es.len() == 0 {
        Seq::empty()
    } else {
        stream_text(es.drop_last()) + match es.last() {
            StreamEvent::TextDelta(d) => d@,
            _ => Seq::empty(),
        }
    }
}

/// The reasoning of a stream: its reasoning deltas in order.
pub open spec fn stream_reasoning(es: Seq<StreamEvent>) -> Seq<char>
    decreases es.len(),
{
    if es.len() == 0 {
        Seq::empty()
    } else {
        stream_reasoning(es.drop_last()) + match es.last() {
            StreamEvent::ReasoningDelta(d) => d@,
            _ => Seq::empty(),
        }
    }
}

/// The tool calls of a stream, event by event.
pub open spec fn stream_tools(es: Seq<StreamEvent>) -> Seq<(Seq<char>, Seq<char>, Seq<char>)>
    decreases es.len(),
{
    if es.len() == 0 {
        Seq::empty()
    } else {
        tools_after(stream_tools(es.drop_last()), es.last())
    }
}

/// How a stream finished: its last finish reason, `Stop` without one.
pub open spec fn stream_finish(es: Seq<StreamEvent>) -> FinishReason
    decreases es.len(),
{
    if es.len() == 0 {
        FinishReason::Stop
    } else {
        match es.last() {
            StreamEvent::Finish(r) => r,
            _ => stream_finish(es.drop_last()),
        }
    }
}

/// The token counts of a stream: its last usage report, if any.
pub open spec fn stream_usage(es: Seq<StreamEvent>) -> (Option<u32>, Option<u32>)
    decreases es.len(),
{
    if es.len() == 0 {
        (None, None)
    } else {
        match es.last() {
            StreamEvent::Usage { input_tokens, output_tokens } => (Some(input_tokens), Some(output_tokens)),
            _ => stream_usage(es.drop_last()),
        }
    }
}

/// `collect_stream`'s fold: a whole stream collected from an empty turn.
pub fn collect_stream(events: Vec<StreamEvent>) -> (c: Collected)
    ensures
        c.text@ == stream_text(events@),
        c.reasoning@ == stream_reasoning(events@),
        partial_views(c.partial_tools@) == stream_tools(events@),
        c.finish == stream_finish(events@),
        (c.input_tokens, c.output_tokens) == stream_usage(events@),
        c.decision is None,
{
    let ghost all = events@;
    let mut c = new_collected();
    let mut rest = events;
    let mut taken: usize = 0;
    assert(rest@ =~= all.skip(0));
    assert(c.text@ =~= stream_text(all.take(0)));
    assert(c.reasoning@ =~= stream_reasoning(all.take(0)));
    assert(partial_views(c.partial_tools@) =~= stream_tools(all.take(0)));
    let n = rest.len();
    while rest.len() > 0
        invariant
            all.len() == n,
            0 <= taken <= all.len(),
            all.len() == rest@.len() + taken,
            rest@ == all.skip(taken as int),
            c.text@ == stream_text(all.take(taken as int)),
            c.reasoning@ == stream_reasoning(all.take(taken as int)),
            partial_views(c.partial_tools@) == stream_tools(all.take(taken as int)),
            c.finish == stream_finish(all.take(taken as int)),
            (c.input_tokens, c.output_tokens) == stream_usage(all.take(taken as int)),
            c.decision is None,
        decreases rest.len(),
    {
        let e = rest.remove(0);
        proof {
            assert(e == all[taken as int]);
            assert(rest@ =~= all.skip(taken + 1));
            assert(all.take(taken + 1).drop_last() =~= all.take(taken as int));
            assert(all.take(taken + 1).last() == all[taken as int]);
        }
        let ghost before_text = c.text@;
        let ghost before_reasoning = c.reasoning@;
        collect_event(&mut c, e);
        proof {
            match all[taken as int] {
                StreamEvent::TextDelta(d) => {},
                _ => {
                    assert(c.text@ =~= before_text + Seq::<char>::empty());
                },
            }
            match all[taken as int] {
                StreamEvent::ReasoningDelta(d) => {},
                _ => {
                    assert(c.reasoning@ =~= before_reasoning + Seq::<char>::empty());
                },
            }
        }
        taken = taken + 1;
    }
    assert(all.take(all.len() as int) =~= all);
    c
}

/// What a tool call's outcome does to the turn: a decision of the mind is
/// kept as the verdict and ends the turn (no result is shown); any other
/// result is shown to the model and the turn goes on.
pub fn after_tool_call(outcome: ToolOutcome, verdict: &mut Option<MindVerdict>) -> (shown: Option<String>)
    ensures
        (shown is None) <==> (outcome is Decision),
        outcome matches ToolOutcome::Decision(v) ==> *final(verdict) == Some(v),
        outcome matches ToolOutcome::Result(t) ==> shown == Some(t) && *final(verdict) == *old(verdict),
{
    match outcome {
        ToolOutcome::Decision(v) => {
            *verdict = Some(v);
            None
        },
        ToolOutcome::Result(t) => Some(t),
    }
}

// ---------------------------------------------------------------------------
// Running tool calls
// ---------------------------------------------------------------------------

/// The arguments a tool call keeps when its text was not valid JSON: the
/// marker key `__invalid_tool_json`, the raw text and the parse error.
pub fn invalid_tool_json(raw_arguments: String, error: String) -> (r: crate::json::Json)
    ensures
        r.bool_at("__invalid_tool_json"@) == Some(true),
        r.str_at("raw_arguments"@) == Some(raw_arguments@),
        r.str_at("error"@) == Some(error@),
{
    let r = crate::json::Json::Object(
        vec![
            (crate::text::owned("__invalid_tool_json"), crate::json::Json::Bool(true)),
            (crate::text::owned("raw_arguments"), crate::json::Json::Str(raw_arguments)),
            (crate::text::owned("error"), crate::json::Json::Str(error)),
        ],
    );
    proof {
        reveal_strlit("__invalid_tool_json");
        reveal_strlit("raw_arguments");
        reveal_strlit("error");
        let e = r->Object_0@;
        assert(e[0].0@ == "__invalid_tool_json"@);
        assert(e[1].0@ == "raw_arguments"@);
        assert(e[2].0@ == "error"@);
        assert(e.drop_first()[0] == e[1]);
        assert(e.drop_first().drop_first()[0] == e[2]);
        assert("raw_arguments"@ != "__invalid_tool_json"@) by {
            assert("raw_arguments"@[0] != "__invalid_tool_json"@[0]);
        }
        assert("error"@ != "__invalid_tool_json"@) by {
            assert("error"@[0] != "__invalid_tool_json"@[0]);
        }
        assert("error"@ != "raw_arguments"@) by {
            assert("error"@[0] != "raw_arguments"@[0]);
        }
        assert(crate::json::entries_lookup(e, "raw_arguments"@) == crate::json::entries_lookup(
            e.drop_first(),
            "raw_arguments"@,
        ));
        assert(crate::json::entries_lookup(e.drop_first(), "raw_arguments"@) == Some(e[1].1));
        assert(crate::json::entries_lookup(e, "error"@) == crate::json::entries_lookup(e.drop_first(), "error"@));
        assert(crate::json::entries_lookup(e.drop_first(), "error"@) == crate::json::entries_lookup(
            e.drop_first().drop_first(),
            "error"@,
        ));
        assert(crate::json::entries_lookup(e.drop_first().drop_first(), "error"@) == Some(e[2].1));
    }
    r
}

/// `invalid_tool_json_error`: the parse error of arguments that carry the
/// marker.
pub fn invalid_tool_json_error(args: &crate::json::Json) -> (r: Option<String>)
    ensures
        opt_str(r) == if args.bool_at("__invalid_tool_json"@) == Some(true) {
            args.str_at("error"@)
        } else {
            None
        },
{
    match args.bool_field("__invalid_tool_json") {
        Some(true) => args.str_field("error"),
        _ => None,
    }
}

pub open spec fn opt_str(o: Option<String>) -> Option<Seq<char>> {
    match o {
        Some(s) => Some(s@),
        None => None,
    }
}

/// What the model is told when a call's arguments were not valid JSON.
pub fn invalid_json_reply(error: &str) -> (r: String)
    ensures
        r@ == "Tool arguments were invalid JSON: "@ + error@ + ". No tool was executed."@,
{
    let mut out = crate::text::owned("Tool arguments were invalid JSON: ");
    append_str(&mut out, error);
    append_str(&mut out, ". No tool was executed.");
    out
}

/// What the model is told of a tool nobody provides.
pub fn unknown_tool_reply(name: &str) -> (r: String)
    ensures
        r@ == "Unknown tool: "@ + name@,
{
    let mut out = crate::text::owned("Unknown tool: ");
    append_str(&mut out, name);
    out
}

/// What one tool call amounts to before it runs.
#[derive(PartialEq, Eq, Structural, Clone, Copy, Debug)]
pub enum CallGate {
    /// Its arguments were not valid JSON: it is reported, not run.
    InvalidJson,
    /// The permission check refused it: the refusal is reported.
    Denied,
    /// It runs.
    Run,
}

/// A call with unreadable arguments is never run, and a refused one neither.
pub fn call_gate(invalid_json: bool, permitted: bool) -> (r: CallGate)
    ensures
        invalid_json ==> r == CallGate::InvalidJson,
        !invalid_json && !permitted ==> r == CallGate::Denied,
        !invalid_json && permitted ==> r == CallGate::Run,
{
    if invalid_json {
        CallGate::InvalidJson
    } else if !permitted {
        CallGate::Denied
    } else {
        CallGate::Run
    }
}

// ---------------------------------------------------------------------------
// Prompt snapshots
// ---------------------------------------------------------------------------

/// Keys whose values a prompt snapshot never keeps.
pub open spec fn redacted_key(key: Seq<char>) -> bool {
    key == "content"@ || key == "text"@ || key == "summary"@ || key == "comm_style"@ || key == "evidence_quote"@
        || key == "reason"@ || key == "task"@ || key == "external_id"@ || key == "sender_external_id"@ || key
        == "reply_external_id"@ || key == "source_message_id"@ || key == "media_url"@ || key == "url"@ || key
        == "raw_arguments"@
}

/// `should_redact_prompt_trace_key`.
pub fn should_redact_prompt_trace_key(key: &str) -> (r: bool)
    ensures
        r == redacted_key(key@),
{
    crate::text::str_eq(key, "content") || crate::text::str_eq(key, "text") || crate::text::str_eq(key, "summary")
        || crate::text::str_eq(key, "comm_style") || crate::text::str_eq(key, "evidence_quote") || crate::text::str_eq(
        key,
        "reason",
    ) || crate::text::str_eq(key, "task") || crate::text::str_eq(key, "external_id") || crate::text::str_eq(
        key,
        "sender_external_id",
    ) || crate::text::str_eq(key, "reply_external_id") || crate::text::str_eq(key, "source_message_id")
        || crate::text::str_eq(key, "media_url") || crate::text::str_eq(key, "url") || crate::text::str_eq(
        key,
        "raw_arguments",
    )
}

/// What a snapshot shows instead of an image URL.
pub fn redact_prompt_image_url(url: &str) -> (r: &'static str)
    ensures
        r@ == if is_prefix("data:"@, url@) {
            "[inline image redacted]"@
        } else {
            "[image url redacted]"@
        },
{
    if starts_with(url, "data:") {
        "[inline image redacted]"
    } else {
        "[image url redacted]"
    }
}

/// Text that, once leading whitespace is skipped, opens a JSON object or
/// array; a snapshot looks inside such text.
pub open spec fn looks_like_json(text: Seq<char>) -> bool {
    let t = crate::text::trim_start_seq(text);
    t.len() > 0 && (t[0] == '{' || t[0] == '[')
}

pub fn looks_like_json_text(text: &str) -> (r: bool)
    ensures
        r == looks_like_json(text@),
{
    let cs = crate::text::chars_of(text);
    let k = crate::text::leading_ws_count(&cs);
    proof {
        crate::text::lemma_lead_ws_bounds(cs@);
    }
    k < cs.len() && (cs[k] == '{' || cs[k] == '[')
}

// ---------------------------------------------------------------------------
// Which tool a call runs
// ---------------------------------------------------------------------------

/// The handler a tool name reaches.
#[derive(PartialEq, Eq, Structural, Clone, Copy, Debug)]
pub enum ToolRoute {
    RecallMemories,
    FormMemory,
    InspectMemory,
    PromoteProfileMemoryToPerson,
    DemotePersonMemoryToProfile,
    ForgetMemory,
    DeleteMemory,
    SendMessage,
    ReadMessages,
    UpdateConversationSummary,
    UpdateProfile,
    UpdatePerson,
    GetPerson,
    RequestIdentityVerification,
    ResolveIdentityVerification,
    DetachProfileFromPerson,
    RejectProfilePersonLink,
    UpsertSocialRelation,
    Reflect,
    NoteThought,
    ApplyReview,
    CreateIntent,
    UpdateIntent,
    DeleteIntent,
    GetCurrentTime,
    GetSessionElapsed,
    Unknown,
}

/// The handler of each tool name; any other name is unknown.
pub open spec fn route_spec(name: Seq<char>) -> ToolRoute {
    if name == "recall_memories"@ {
        ToolRoute::RecallMemories
    } else if name == "form_memory"@ {
        ToolRoute::FormMemory
    } else if name == "inspect_memory"@ {
        ToolRoute::InspectMemory
    } else if name == "promote_profile_memory_to_person"@ {
        ToolRoute::PromoteProfileMemoryToPerson
    } else if name == "demote_person_memory_to_profile"@ {
        ToolRoute::DemotePersonMemoryToProfile
    } else if name == "forget_memory"@ {
        ToolRoute::ForgetMemory
    } else if name == "delete_memory"@ {
        ToolRoute::DeleteMemory
    } else if name == "send_message"@ {
        ToolRoute::SendMessage
    } else if name == "read_messages"@ {
        ToolRoute::ReadMessages
    } else if name == "update_conversation_summary"@ {
        ToolRoute::UpdateConversationSummary
    } else if name == "update_profile"@ {
        ToolRoute::UpdateProfile
    } else if name == "update_person"@ {
        ToolRoute::UpdatePerson
    } else if name == "get_person"@ {
        ToolRoute::GetPerson
    } else if name == "request_identity_verification"@ {
        ToolRoute::RequestIdentityVerification
    } else if name == "resolve_identity_verification"@ {
        ToolRoute::ResolveIdentityVerification
    } else if name == "detach_profile_from_person"@ {
        ToolRoute::DetachProfileFromPerson
    } else if name == "reject_profile_person_link"@ {
        ToolRoute::RejectProfilePersonLink
    } else if name == "upsert_social_relation"@ {
        ToolRoute::UpsertSocialRelation
    } else if name == "reflect"@ {
        ToolRoute::Reflect
    } else if name == "note_thought"@ {
        ToolRoute::NoteThought
    } else if name == "apply_review"@ {
        ToolRoute::ApplyReview
    } else if name == "create_intent"@ {
        ToolRoute::CreateIntent
    } else if name == "update_intent"@ {
        ToolRoute::UpdateIntent
    } else if name == "delete_intent"@ {
        ToolRoute::DeleteIntent
    } else if name == "get_current_time"@ {
        ToolRoute::GetCurrentTime
    } else if name == "get_session_elapsed"@ {
        ToolRoute::GetSessionElapsed
    } else {
        ToolRoute::Unknown
    }
}

/// `execute`'s dispatch: the handler a (non-decision) tool name reaches.
pub fn route_tool(name: &str) -> (r: ToolRoute)
    ensures
        r == route_spec(name@),
{
    if crate::text::str_eq(name, "recall_memories") {
        ToolRoute::RecallMemories
    } else if crate::text::str_eq(name, "form_memory") {
        ToolRoute::FormMemory
    } else if crate::text::str_eq(name, "inspect_memory") {
        ToolRoute::InspectMemory
    } else if crate::text::str_eq(name, "promote_profile_memory_to_person") {
        ToolRoute::PromoteProfileMemoryToPerson
    } else if crate::text::str_eq(name, "demote_person_memory_to_profile") {
        ToolRoute::DemotePersonMemoryToProfile
    } else if crate::text::str_eq(name, "forget_memory") {
        ToolRoute::ForgetMemory
    } else if crate::text::str_eq(name, "delete_memory") {
        ToolRoute::DeleteMemory
    } else if crate::text::str_eq(name, "send_message") {
        ToolRoute::SendMessage
    } else if crate::text::str_eq(name, "read_messages") {
        ToolRoute::ReadMessages
    } else if crate::text::str_eq(name, "update_conversation_summary") {
        ToolRoute::UpdateConversationSummary
    } else if crate::text::str_eq(name, "update_profile") {
        ToolRoute::UpdateProfile
    } else if crate::text::str_eq(name, "update_person") {
        ToolRoute::UpdatePerson
    } else if crate::text::str_eq(name, "get_person") {
        ToolRoute::GetPerson
    } else if crate::text::str_eq(name, "request_identity_verification") {
        ToolRoute::RequestIdentityVerification
    } else if crate::text::str_eq(name, "resolve_identity_verification") {
        ToolRoute::ResolveIdentityVerification
    } else if crate::text::str_eq(name, "detach_profile_from_person") {
        ToolRoute::DetachProfileFromPerson
    } else if crate::text::str_eq(name, "reject_profile_person_link") {
        ToolRoute::RejectProfilePersonLink
    } else if crate::text::str_eq(name, "upsert_social_relation") {
        ToolRoute::UpsertSocialRelation
    } else if crate::text::str_eq(name, "reflect") {
        ToolRoute::Reflect
    } else if crate::text::str_eq(name, "note_thought") {
        ToolRoute::NoteThought
    } else if crate::text::str_eq(name, "apply_review") {
        ToolRoute::ApplyReview
    } else if crate::text::str_eq(name, "create_intent") {
        ToolRoute::CreateIntent
    } else if crate::text::str_eq(name, "update_intent") {
        ToolRoute::UpdateIntent
    } else if crate::text::str_eq(name, "delete_intent") {
        ToolRoute::DeleteIntent
    } else if crate::text::str_eq(name, "get_current_time") {
        ToolRoute::GetCurrentTime
    } else if crate::text::str_eq(name, "get_session_elapsed") {
        ToolRoute::GetSessionElapsed
    } else {
        ToolRoute::Unknown
    }
}

/// The messaging tools an action gets: without `send_message` unless it is
/// expected to answer.
pub fn messaging_tools_for(kind: ActionKind) -> (r: Vec<crate::tools::Tool>)
    ensures
        crate::tools::tool_names(r@) == if kind.spec_expects_response() {
            seq!["send_message"@, "read_messages"@, "update_conversation_summary"@]
        } else {
            seq!["read_messages"@, "update_conversation_summary"@]
        },
{
    let all = crate::tools::messaging::tools();
    if kind.expects_response() {
        return all;
    }
    let ghost names = crate::tools::tool_names(all@);
    let mut rest = all;
    proof {
        reveal_strlit("send_message");
        reveal_strlit("read_messages");
        reveal_strlit("update_conversation_summary");
        assert(names.len() == 3);
        assert(rest@.len() == 3);
    }
    // The catalog lists `send_message` first.
    let removed = rest.remove(0);
    proof {
        assert(removed.name@ == "send_message"@);
        assert(crate::tools::tool_names(rest@) =~= names.subrange(1, 3));
    }
    rest
}

// ---------------------------------------------------------------------------
// Stored message metadata
// ---------------------------------------------------------------------------

/// What a stored message's metadata holds under each key: `source`, the
/// attachments when there are any, and otherwise the message's own metadata
/// when it is an object, or that metadata under `source_metadata` when it is
/// neither an object nor null.
pub open spec fn metadata_field(metadata: crate::json::Json, source: crate::json::Json, attachments: Option<crate::json::Json>, k: Seq<char>) -> Option<
    crate::json::Json,
> {
    if k == "source"@ {
        Some(source)
    } else if k == "attachments"@ && attachments is Some {
        attachments
    } else {
        match metadata {
            crate::json::Json::Object(_) => metadata.field(k),
            crate::json::Json::Null => None,
            _ => if k == "source_metadata"@ {
                Some(metadata)
            } else {
                None
            },
        }
    }
}

/// `message_metadata`, given the message's metadata, its `source` record and
/// its attachments as JSON.
pub fn message_metadata(metadata: crate::json::Json, source: crate::json::Json, attachments: Option<crate::json::Json>) -> (r:
    crate::json::Json)
    ensures
        r is Object,
        forall|k: Seq<char>| #[trigger] r.field(k) == metadata_field(metadata, source, attachments, k),
{
    let ghost m0 = metadata;
    let ghost s0 = source;
    let ghost a0 = attachments;
    let mut entries: Vec<(String, crate::json::Json)> = match metadata {
        crate::json::Json::Object(entries) => entries,
        crate::json::Json::Null => Vec::new(),
        other => vec![(crate::text::owned("source_metadata"), other)],
    };
    proof {
        reveal_strlit("source_metadata");
        reveal_strlit("source");
        reveal_strlit("attachments");
        assert("source_metadata"@ != "source"@) by {
            assert("source_metadata"@.len() != "source"@.len());
        }
        assert("attachments"@ != "source"@) by {
            assert("attachments"@[0] != "source"@[0]);
        }
        assert("attachments"@ != "source_metadata"@) by {
            assert("attachments"@[0] != "source_metadata"@[0]);
        }
        assert forall|k: Seq<char>| k != "source"@ && !(k == "attachments"@ && a0 is Some) implies #[trigger] crate::json::entries_lookup(entries@, k)
            == metadata_field(m0, s0, a0, k) by {
            match m0 {
                crate::json::Json::Object(_) => {},
                crate::json::Json::Null => {},
                _ => {
                    assert(entries@.drop_first() =~= Seq::<(String, crate::json::Json)>::empty());
                    if k != "source_metadata"@ {
                        assert(crate::json::entries_lookup(entries@, k) == crate::json::entries_lookup(entries@.drop_first(), k));
                    }
                },
            }
        }
    }
    let ghost e1 = entries@;
    crate::json::object_insert(&mut entries, "source", source);
    let ghost e2 = entries@;
    match attachments {
        Some(a) => crate::json::object_insert(&mut entries, "attachments", a),
        None => {},
    }
    proof {
        assert forall|k: Seq<char>| #[trigger] crate::json::entries_lookup(entries@, k) == metadata_field(m0, s0, a0, k) by {
            if k == "source"@ {
                assert(crate::json::entries_lookup(e2, k) == Some(s0));
            } else if k == "attachments"@ && a0 is Some {
            } else {
                assert(crate::json::entries_lookup(e2, k) == crate::json::entries_lookup(e1, k));
            }
        }
    }
    crate::json::Json::Object(entries)
}

} // verus!
