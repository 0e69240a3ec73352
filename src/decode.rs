//! Decoding of one payload against the session's schema, and its mapping to
//! normalized events.
use vstd::prelude::*;
use crate::event::{
    append_events, event_views, text_view, usage_view, EventView, NormalizedEvent, Usage,
};
use crate::json::{
    get_member, get_optional_text, get_text, member, optional_text, JsonValue,
};
use crate::provider::{display_name, join, text_is, ProviderKind};

verus! {

/// The `delta` of a message/delta oriented event.
pub struct AnthropicDelta {
    pub delta_type: Option<String>,
    pub text: Option<String>,
}

/// The `error` descriptor of a message/delta oriented event.
pub struct AnthropicError {
    pub error_type: String,
    pub message: String,
}

/// One message/delta oriented event.
pub struct AnthropicEvent {
    pub event_type: String,
    pub delta: Option<AnthropicDelta>,
    pub message_id: Option<String>,
    pub usage: Option<Usage>,
    pub error: Option<AnthropicError>,
}

/// The `delta` of one choice of a choice-array oriented event.
pub struct OpenAIDelta {
    pub role: Option<String>,
    pub content: Option<String>,
}

/// One choice of a choice-array oriented event.
pub struct OpenAIChoice {
    pub delta: Option<OpenAIDelta>,
    pub finish_reason: Option<String>,
}

/// One choice-array oriented event.
pub struct OpenAIChunk {
    pub id: String,
    pub choices: Vec<OpenAIChoice>,
}

/// A decoded payload, in the schema of its session.
pub enum ProviderEvent {
    Anthropic(AnthropicEvent),
    OpenAI(OpenAIChunk),
}

// ----- message/delta oriented schema -----

/// An optional `delta` member: absent or null is `Some(None)`; an object whose
/// `type` and `text` are optional texts is `Some(Some(..))`; else `None`.
pub open spec fn anthropic_delta_of(m: Option<JsonValue>) -> Option<Option<AnthropicDelta>> {
    match m {
        None => Some(None),
        Some(JsonValue::Null) => Some(None),
        Some(d) => match (d, optional_text(member(d, "type"@)), optional_text(member(d, "text"@))) {
            (JsonValue::Object(_), Some(t), Some(x)) => Some(
                Some(AnthropicDelta { delta_type: t, text: x }),
            ),
            _ => None,
        },
    }
}

/// The `id` text of a `message` member, if there is one.
pub open spec fn message_id_of(m: Option<JsonValue>) -> Option<String> {
    match m {
        Some(msg) => match member(msg, "id"@) {
            Some(JsonValue::Str(id)) => Some(id),
            _ => None,
        },
        None => None,
    }
}

/// The token counts of a `usage` member, when both are numbers.
pub open spec fn usage_of(m: Option<JsonValue>) -> Option<Usage> {
    match m {
        Some(u) => match (member(u, "input_tokens"@), member(u, "output_tokens"@)) {
            (Some(JsonValue::Number(a)), Some(JsonValue::Number(b))) => Some(
                Usage { input_tokens: a, output_tokens: b },
            ),
            _ => None,
        },
        None => None,
    }
}

/// An optional `error` member: absent or null is `Some(None)`; an object with
/// text members `type` and `message` is `Some(Some(..))`; else `None`.
pub open spec fn anthropic_error_of(m: Option<JsonValue>) -> Option<Option<AnthropicError>> {
    match m {
        None => Some(None),
        Some(JsonValue::Null) => Some(None),
        Some(e) => match (member(e, "type"@), member(e, "message"@)) {
            (Some(JsonValue::Str(t)), Some(JsonValue::Str(msg))) => Some(
                Some(AnthropicError { error_type: t, message: msg }),
            ),
            _ => None,
        },
    }
}

/// The `delta` member as an event of type `t` reads it: only a
/// `content_block_delta` event uses it, so any other type ignores it.
pub open spec fn delta_for_type(t: Seq<char>, v: JsonValue) -> Option<Option<AnthropicDelta>> {
    if t == "content_block_delta"@ {
        anthropic_delta_of(member(v, "delta"@))
    } else {
        Some(None)
    }
}

/// The `error` member as an event of type `t` reads it: only an `error` event
/// uses it, so any other type ignores it.
pub open spec fn error_for_type(t: Seq<char>, v: JsonValue) -> Option<Option<AnthropicError>> {
    if t == "error"@ {
        anthropic_error_of(member(v, "error"@))
    } else {
        Some(None)
    }
}

/// The message/delta oriented event that `v` holds; `None` when `v` has not
/// that shape: no text `type`, or a malformed member that its type uses (the
/// `delta` of a `content_block_delta`, the `error` of an `error`).
pub open spec fn anthropic_event_of(v: JsonValue) -> Option<AnthropicEvent> {
    match member(v, "type"@) {
        Some(JsonValue::Str(t)) => match (delta_for_type(t@, v), error_for_type(t@, v)) {
            (Some(d), Some(e)) => Some(
                AnthropicEvent {
                    event_type: t,
                    delta: d,
                    message_id: message_id_of(member(v, "message"@)),
                    usage: usage_of(member(v, "usage"@)),
                    error: e,
                },
            ),
            _ => None,
        },
        _ => None,
    }
}

fn decode_anthropic_delta(m: Option<&JsonValue>) -> (r: Option<Option<AnthropicDelta>>)
    ensures
        r == anthropic_delta_of(
            match m {
                Some(x) => Some(*x),
                None => None,
            },
        ),
{
    match m {
        None => Some(None),
        Some(JsonValue::Null) => Some(None),
        Some(d) => {
            let t = get_optional_text(d, "type");
            let x = get_optional_text(d, "text");
            match (d, t, x) {
                (JsonValue::Object(_), Some(t), Some(x)) => Some(
                    Some(AnthropicDelta { delta_type: t, text: x }),
                ),
                _ => None,
            }
        },
    }
}

fn decode_message_id(m: Option<&JsonValue>) -> (r: Option<String>)
    ensures
        r == message_id_of(
            match m {
                Some(x) => Some(*x),
                None => None,
            },
        ),
{
    match m {
        Some(msg) => get_text(msg, "id"),
        None => None,
    }
}

fn decode_usage(m: Option<&JsonValue>) -> (r: Option<Usage>)
    ensures
        r == usage_of(
            match m {
                Some(x) => Some(*x),
                None => None,
            },
        ),
{
    match m {
        Some(u) => match (get_member(u, "input_tokens"), get_member(u, "output_tokens")) {
            (Some(JsonValue::Number(a)), Some(JsonValue::Number(b))) => Some(
                Usage { input_tokens: a.clone(), output_tokens: b.clone() },
            ),
            _ => None,
        },
        None => None,
    }
}

fn decode_anthropic_error(m: Option<&JsonValue>) -> (r: Option<Option<AnthropicError>>)
    ensures
        r == anthropic_error_of(
            match m {
                Some(x) => Some(*x),
                None => None,
            },
        ),
{
    match m {
        None => Some(None),
        Some(JsonValue::Null) => Some(None),
        Some(e) => match (get_text(e, "type"), get_text(e, "message")) {
            (Some(t), Some(msg)) => Some(Some(AnthropicError { error_type: t, message: msg })),
            _ => None,
        },
    }
}

/// Decodes `v` as a message/delta oriented event.
pub fn decode_anthropic(v: &JsonValue) -> (r: Option<AnthropicEvent>)
    ensures
        r == anthropic_event_of(*v),
{
    let t = match get_text(v, "type") {
        Some(t) => t,
        None => return None,
    };
    let d = if text_is(t.as_str(), "content_block_delta") {
        decode_anthropic_delta(get_member(v, "delta"))
    } else {
        Some(None)
    };
    let e = if text_is(t.as_str(), "error") {
        decode_anthropic_error(get_member(v, "error"))
    } else {
        Some(None)
    };
    match (d, e) {
        (Some(d), Some(e)) => Some(
            AnthropicEvent {
                event_type: t,
                delta: d,
                message_id: decode_message_id(get_member(v, "message")),
                usage: decode_usage(get_member(v, "usage")),
                error: e,
            },
        ),
        _ => None,
    }
}

// ----- choice-array oriented schema -----

/// An optional `delta` member of a choice: absent or null is `Some(None)`; an
/// object whose `role` and `content` are optional texts is `Some(Some(..))`.
pub open spec fn openai_delta_of(m: Option<JsonValue>) -> Option<Option<OpenAIDelta>> {
    match m {
        None => Some(None),
        Some(JsonValue::Null) => Some(None),
        Some(d) => match (d, optional_text(member(d, "role"@)), optional_text(member(d, "content"@))) {
            (JsonValue::Object(_), Some(r), Some(c)) => Some(
                Some(OpenAIDelta { role: r, content: c }),
            ),
            _ => None,
        },
    }
}

/// One choice record: an object with an optional `delta` and an optional text
/// `finish_reason`.
pub open spec fn openai_choice_of(c: JsonValue) -> Option<OpenAIChoice> {
    match (c, openai_delta_of(member(c, "delta"@)), optional_text(member(c, "finish_reason"@))) {
        (JsonValue::Object(_), Some(d), Some(f)) => Some(OpenAIChoice { delta: d, finish_reason: f }),
        _ => None,
    }
}

/// True when `v` is a choice-array oriented event: a text `id` and an array
/// `choices` of choice records.
pub open spec fn openai_decodes(v: JsonValue) -> bool {
    match (member(v, "id"@), member(v, "choices"@)) {
        (Some(JsonValue::Str(_)), Some(JsonValue::Array(cs))) => forall|i: int|
            0 <= i < cs@.len() ==> (#[trigger] openai_choice_of(cs@[i])) is Some,
        _ => false,
    }
}

/// True when `c` is the event that `v` holds, member by member.
pub open spec fn openai_chunk_of(v: JsonValue, c: OpenAIChunk) -> bool {
    match (member(v, "id"@), member(v, "choices"@)) {
        (Some(JsonValue::Str(id)), Some(JsonValue::Array(cs))) => {
            &&& c.id == id
            &&& c.choices@.len() == cs@.len()
            &&& forall|i: int|
                0 <= i < cs@.len() ==> openai_choice_of(#[trigger] cs@[i]) == Some(c.choices@[i])
        },
        _ => false,
    }
}

fn decode_openai_delta(m: Option<&JsonValue>) -> (r: Option<Option<OpenAIDelta>>)
    ensures
        r == openai_delta_of(
            match m {
                Some(x) => Some(*x),
                None => None,
            },
        ),
{
    match m {
        None => Some(None),
        Some(JsonValue::Null) => Some(None),
        Some(d) => {
            let role = get_optional_text(d, "role");
            let content = get_optional_text(d, "content");
            match (d, role, content) {
                (JsonValue::Object(_), Some(r), Some(c)) => Some(
                    Some(OpenAIDelta { role: r, content: c }),
                ),
                _ => None,
            }
        },
    }
}

fn decode_openai_choice(c: &JsonValue) -> (r: Option<OpenAIChoice>)
    ensures
        r == openai_choice_of(*c),
{
    let d = decode_openai_delta(get_member(c, "delta"));
    let f = get_optional_text(c, "finish_reason");
    match (c, d, f) {
        (JsonValue::Object(_), Some(d), Some(f)) => Some(OpenAIChoice { delta: d, finish_reason: f }),
        _ => None,
    }
}

/// Decodes `v` as a choice-array oriented event.
pub fn decode_openai(v: &JsonValue) -> (r: Option<OpenAIChunk>)
    ensures
        r is Some <==> openai_decodes(*v),
        r matches Some(c) ==> openai_chunk_of(*v, c),
{
    let id = get_text(v, "id");
    let choices = get_member(v, "choices");
    match (id, choices) {
        (Some(id), Some(JsonValue::Array(cs))) => {
            let mut out: Vec<OpenAIChoice> = Vec::new();
            let mut i: usize = 0;
            while i < cs.len()
                invariant
                    i <= cs@.len(),
                    out@.len() == i,
                    member(*v, "choices"@) == Some(JsonValue::Array(*cs)),
                    forall|j: int| 0 <= j < i ==> openai_choice_of(#[trigger] cs@[j]) == Some(out@[j]),
                decreases cs@.len() - i,
            {
                match decode_openai_choice(&cs[i]) {
                    Some(c) => out.push(c),
                    None => return None,
                }
                i = i + 1;
            }
            Some(OpenAIChunk { id, choices: out })
        },
        _ => None,
    }
}

// ----- normalization -----

/// The text of a delta whose sub-type marks it as text and that carries text.
pub open spec fn text_of_delta(d: Option<AnthropicDelta>) -> Option<Seq<char>> {
    match d {
        Some(d) => match (d.delta_type, d.text) {
            (Some(t), Some(x)) => if t@ == "text_delta"@ {
                Some(x@)
            } else {
                None
            },
            _ => None,
        },
        None => None,
    }
}

/// The message of an upstream error event.
pub open spec fn upstream_error_message(e: AnthropicError) -> Seq<char> {
    "Anthropic API Error Event: ["@ + e.error_type@ + "] "@ + e.message@
}

/// The normalized events of one message/delta oriented event.
pub open spec fn anthropic_events(e: AnthropicEvent) -> Seq<EventView> {
    if e.event_type@ == "message_start"@ {
        seq![EventView::StreamStart(text_view(e.message_id))]
    } else if e.event_type@ == "content_block_delta"@ {
        match text_of_delta(e.delta) {
            Some(x) => seq![EventView::TextDelta(x)],
            None => Seq::empty(),
        }
    } else if e.event_type@ == "message_stop"@ {
        seq![EventView::StreamFinish("stop"@, usage_view(e.usage))]
    } else if e.event_type@ == "error"@ {
        match e.error {
            Some(er) => seq![EventView::StreamError(upstream_error_message(er))],
            None => Seq::empty(),
        }
    } else {
        Seq::empty()
    }
}

/// The normalized events of one choice: its non-empty text, then its finish.
pub open spec fn choice_events(c: OpenAIChoice) -> Seq<EventView> {
    let text = match c.delta {
        Some(d) => match d.content {
            Some(t) => if t@.len() > 0 {
                seq![EventView::TextDelta(t@)]
            } else {
                Seq::empty()
            },
            None => Seq::empty(),
        },
        None => Seq::empty(),
    };
    let finish = match c.finish_reason {
        Some(r) => seq![EventView::StreamFinish(r@, None)],
        None => Seq::empty(),
    };
    text + finish
}

/// The normalized events of a list of choices, in list order.
pub open spec fn choices_events(cs: Seq<OpenAIChoice>) -> Seq<EventView>
    decreases cs.len(),
{
    if cs.len() == 0 {
        Seq::empty()
    } else {
        choices_events(cs.drop_last()) + choice_events(cs.last())
    }
}

/// The normalized events of a decoded payload.
pub open spec fn provider_events(ev: ProviderEvent) -> Seq<EventView> {
    match ev {
        ProviderEvent::Anthropic(e) => anthropic_events(e),
        ProviderEvent::OpenAI(c) => choices_events(c.choices@),
    }
}

/// Maps a message/delta oriented event to normalized events.
pub fn normalize_anthropic(e: &AnthropicEvent) -> (r: Vec<NormalizedEvent>)
    ensures
        event_views(r@) == anthropic_events(*e),
{
    let mut out: Vec<NormalizedEvent> = Vec::new();
    let t = e.event_type.as_str();
    if text_is(t, "message_start") {
        let id = match &e.message_id {
            Some(id) => Some(id.clone()),
            None => None,
        };
        out.push(NormalizedEvent::StreamStart(id));
    } else if text_is(t, "content_block_delta") {
        match &e.delta {
            Some(d) => match (&d.delta_type, &d.text) {
                (Some(dt), Some(x)) => {
                    if text_is(dt.as_str(), "text_delta") {
                        out.push(NormalizedEvent::TextDelta(x.clone()));
                    }
                },
                _ => {},
            },
            None => {},
        }
    } else if text_is(t, "message_stop") {
        let usage = match &e.usage {
            Some(u) => Some(
                Usage { input_tokens: u.input_tokens.clone(), output_tokens: u.output_tokens.clone() },
            ),
            None => None,
        };
        out.push(NormalizedEvent::StreamFinish("stop".to_owned(), usage));
    } else if text_is(t, "error") {
        match &e.error {
            Some(er) => {
                let m = join("Anthropic API Error Event: [", er.error_type.as_str());
                let m = join(m.as_str(), "] ");
                let m = join(m.as_str(), er.message.as_str());
                out.push(NormalizedEvent::StreamError(m));
            },
            None => {},
        }
    }
    assert(event_views(out@) =~= anthropic_events(*e));
    out
}

/// Maps one choice to normalized events.
fn normalize_choice(c: &OpenAIChoice) -> (r: Vec<NormalizedEvent>)
    ensures
        event_views(r@) == choice_events(*c),
{
    let mut out: Vec<NormalizedEvent> = Vec::new();
    match &c.delta {
        Some(d) => match &d.content {
            Some(t) => {
                if !t.as_str().is_empty() {
                    out.push(NormalizedEvent::TextDelta(t.clone()));
                }
            },
            None => {},
        },
        None => {},
    }
    match &c.finish_reason {
        Some(reason) => out.push(NormalizedEvent::StreamFinish(reason.clone(), None)),
        None => {},
    }
    assert(event_views(out@) =~= choice_events(*c));
    out
}

/// Maps a choice-array oriented event to normalized events, choice by choice.
pub fn normalize_openai(c: &OpenAIChunk) -> (r: Vec<NormalizedEvent>)
    ensures
        event_views(r@) == choices_events(c.choices@),
{
    let mut out: Vec<NormalizedEvent> = Vec::new();
    let mut i: usize = 0;
    while i < c.choices.len()
        invariant
            i <= c.choices@.len(),
            event_views(out@) == choices_events(c.choices@.take(i as int)),
        decreases c.choices@.len() - i,
    {
        let more = normalize_choice(&c.choices[i]);
        append_events(&mut out, more);
        assert(c.choices@.take(i + 1).drop_last() =~= c.choices@.take(i as int));
        i = i + 1;
    }
    assert(c.choices@.take(i as int) =~= c.choices@);
    out
}

// ----- decoding a payload -----

/// A recoverable failure to decode one payload.
pub struct DecodeFailure {
    pub message: String,
}

/// The message of a payload that could not be decoded.
pub open spec fn decode_failure_message(kind: ProviderKind, detail: Seq<char>) -> Seq<char> {
    "Failed to parse "@ + display_name(kind) + " JSON: "@ + detail
}

/// The detail reported for a JSON document that is not an event of the schema.
pub open spec fn shape_detail() -> Seq<char> {
    "unexpected event shape"@
}

/// The choice records of a choice-array oriented event `v`.
pub open spec fn choices_in(v: JsonValue) -> Seq<OpenAIChoice> {
    match member(v, "choices"@) {
        Some(JsonValue::Array(cs)) => Seq::new(
            cs@.len(),
            |i: int|
                match openai_choice_of(cs@[i]) {
                    Some(c) => c,
                    None => OpenAIChoice { delta: None, finish_reason: None },
                },
        ),
        _ => Seq::empty(),
    }
}

/// True when `v` is an event of the schema that `kind` selects.
pub open spec fn decodes(kind: ProviderKind, v: JsonValue) -> bool {
    match kind {
        ProviderKind::Anthropic => anthropic_event_of(v) is Some,
        ProviderKind::OpenAI => openai_decodes(v),
    }
}

/// The normalized events of a JSON document `v` in the schema of `kind`.
pub open spec fn json_events(kind: ProviderKind, v: JsonValue) -> Seq<EventView> {
    if !decodes(kind, v) {
        seq![EventView::StreamError(decode_failure_message(kind, shape_detail()))]
    } else {
        match kind {
            ProviderKind::Anthropic => match anthropic_event_of(v) {
                Some(e) => anthropic_events(e),
                None => Seq::empty(),
            },
            ProviderKind::OpenAI => choices_events(choices_in(v)),
        }
    }
}

/// The normalized events of one payload, given the outcome of parsing it as
/// JSON (the document, or the parser's error text). A parse or shape failure
/// is reported as one error event; it is recoverable.
pub open spec fn payload_events(kind: ProviderKind, parsed: Result<JsonValue, String>) -> Seq<
    EventView,
> {
    match parsed {
        Err(detail) => seq![EventView::StreamError(decode_failure_message(kind, detail@))],
        Ok(v) => json_events(kind, v),
    }
}

fn failure(kind: ProviderKind, detail: &str) -> (r: DecodeFailure)
    ensures
        r.message@ == decode_failure_message(kind, detail@),
{
    let m = join("Failed to parse ", kind.display_name());
    let m = join(m.as_str(), " JSON: ");
    DecodeFailure { message: join(m.as_str(), detail) }
}

/// Decodes a parsed payload in the schema that `kind` selects.
pub fn decode(kind: ProviderKind, parsed: &Result<JsonValue, String>) -> (r: Result<
    ProviderEvent,
    DecodeFailure,
>)
    ensures
        r is Ok <==> (*parsed matches Ok(v) && decodes(kind, v)),
        r matches Ok(ev) ==> provider_events(ev) == payload_events(kind, *parsed),
        r matches Err(f) ==> seq![EventView::StreamError(f.message@)] == payload_events(
            kind,
            *parsed,
        ),
{
    match parsed {
        Err(detail) => Err(failure(kind, detail.as_str())),
        Ok(v) => match kind {
            ProviderKind::Anthropic => match decode_anthropic(v) {
                Some(e) => Ok(ProviderEvent::Anthropic(e)),
                None => Err(failure(kind, "unexpected event shape")),
            },
            ProviderKind::OpenAI => match decode_openai(v) {
                Some(c) => {
                    assert(c.choices@ =~= choices_in(*v));
                    Ok(ProviderEvent::OpenAI(c))
                },
                None => Err(failure(kind, "unexpected event shape")),
            },
        },
    }
}

/// Maps a decoded payload to normalized events.
pub fn normalize(ev: &ProviderEvent) -> (r: Vec<NormalizedEvent>)
    ensures
        event_views(r@) == provider_events(*ev),
{
    match ev {
        ProviderEvent::Anthropic(e) => normalize_anthropic(e),
        ProviderEvent::OpenAI(c) => normalize_openai(c),
    }
}

/// The normalized events of one payload, given the outcome of parsing it.
pub fn events_for_payload(kind: ProviderKind, parsed: &Result<JsonValue, String>) -> (r: Vec<
    NormalizedEvent,
>)
    ensures
        event_views(r@) == payload_events(kind, *parsed),
{
    match decode(kind, parsed) {
        Ok(ev) => normalize(&ev),
        Err(f) => {
            let out = vec![NormalizedEvent::StreamError(f.message)];
            assert(event_views(out@) =~= payload_events(kind, *parsed));
            out
        },
    }
}


/// True when no event of `t` is `StreamEnd`.
pub open spec fn no_end(t: Seq<EventView>) -> bool {
    forall|j: int| 0 <= j < t.len() ==> t[j] != EventView::StreamEnd
}

proof fn lemma_choices_no_end(cs: Seq<OpenAIChoice>)
    ensures
        no_end(choices_events(cs)),
    decreases cs.len(),
{
    if cs.len() > 0 {
        lemma_choices_no_end(cs.drop_last());
        let a = choices_events(cs.drop_last());
        let b = choice_events(cs.last());
        assert forall|j: int| 0 <= j < (a + b).len() implies (a + b)[j] != EventView::StreamEnd by {
            if j >= a.len() {
                assert((a + b)[j] == b[j - a.len()]);
            }
        }
    }
}

/// A payload never ends the stream: its events hold no `StreamEnd`.
pub proof fn lemma_payload_events_no_end(kind: ProviderKind, parsed: Result<JsonValue, String>)
    ensures
        no_end(payload_events(kind, parsed)),
{
    match parsed {
        Ok(v) => {
            if decodes(kind, v) && kind == ProviderKind::OpenAI {
                lemma_choices_no_end(choices_in(v));
            }
        },
        Err(_) => {},
    }
}


/// Keepalive and structural marker events produce no normalized event: a
/// `ping`, `content_block_start`, `content_block_stop` or `message_delta` event
/// maps to nothing, whatever else it carries.
pub proof fn lemma_markers_are_silent(e: AnthropicEvent)
    requires
        e.event_type@ == "ping"@ || e.event_type@ == "content_block_start"@ || e.event_type@
            == "content_block_stop"@ || e.event_type@ == "message_delta"@,
    ensures
        anthropic_events(e) == Seq::<EventView>::empty(),
{
    reveal_strlit("ping");
    reveal_strlit("content_block_start");
    reveal_strlit("content_block_stop");
    reveal_strlit("message_delta");
    reveal_strlit("message_start");
    reveal_strlit("content_block_delta");
    reveal_strlit("message_stop");
    reveal_strlit("error");
    let t = e.event_type@;
    assert("message_delta"@[8] != "message_start"@[8]);
    assert("content_block_start"@[14] != "content_block_delta"@[14]);
    assert("message_start"@.len() == 13 && "content_block_delta"@.len() == 19);
    assert("message_stop"@.len() == 12 && "error"@.len() == 5);
    if t == "ping"@ {
        assert(t.len() == 4);
    } else if t == "content_block_start"@ {
        assert(t.len() == 19 && t[14] == 's');
    } else if t == "content_block_stop"@ {
        assert(t.len() == 18);
    } else {
        assert(t.len() == 13 && t[8] == 'd');
    }
}

/// A keepalive or structural marker document produces no normalized event,
/// whatever its other members hold: a JSON object whose `type` is `ping`,
/// `content_block_start`, `content_block_stop` or `message_delta` decodes and
/// maps to nothing.
pub proof fn lemma_marker_documents_are_silent(v: JsonValue)
    requires
        member(v, "type"@) matches Some(JsonValue::Str(t)) && (t@ == "ping"@ || t@
            == "content_block_start"@ || t@ == "content_block_stop"@ || t@ == "message_delta"@),
    ensures
        decodes(ProviderKind::Anthropic, v),
        json_events(ProviderKind::Anthropic, v) == Seq::<EventView>::empty(),
        payload_events(ProviderKind::Anthropic, Ok(v)) == Seq::<EventView>::empty(),
{
    let t = match member(v, "type"@) {
        Some(JsonValue::Str(t)) => t,
        _ => arbitrary(),
    };
    reveal_strlit("ping");
    reveal_strlit("content_block_start");
    reveal_strlit("content_block_stop");
    reveal_strlit("message_delta");
    reveal_strlit("content_block_delta");
    reveal_strlit("error");
    assert("content_block_delta"@.len() == 19 && "error"@.len() == 5);
    if t@ == "ping"@ {
        assert(t@.len() == 4);
    } else if t@ == "content_block_start"@ {
        assert(t@.len() == 19 && t@[14] == 's');
    } else if t@ == "content_block_stop"@ {
        assert(t@.len() == 18);
    } else {
        assert(t@.len() == 13);
    }
    assert(t@ != "content_block_delta"@ && t@ != "error"@);
    let e = anthropic_event_of(v).unwrap();
    lemma_markers_are_silent(e);
}

} // verus!
