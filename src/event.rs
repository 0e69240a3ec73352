//! The normalized downstream event vocabulary.
use vstd::prelude::*;

verus! {

/// Token counts of a finished message, each kept as its JSON number text.
#[derive(Debug, Clone, PartialEq, Eq)]
pub struct Usage {
    pub input_tokens: String,
    pub output_tokens: String,
}

/// One event for the consumer.
#[derive(Debug, Clone, PartialEq, Eq)]
pub enum NormalizedEvent {
    /// A fragment of generated text.
    TextDelta(String),
    /// A message began; carries its identifier when one was found.
    StreamStart(Option<String>),
    /// A message finished, with its completion reason and token counts when known.
    StreamFinish(String, Option<Usage>),
    /// A failure, reported as a plain message.
    StreamError(String),
    /// The session ended gracefully; always the last event.
    StreamEnd,
}

/// The mathematical content of a `NormalizedEvent`.
pub enum EventView {
    TextDelta(Seq<char>),
    StreamStart(Option<Seq<char>>),
    StreamFinish(Seq<char>, Option<(Seq<char>, Seq<char>)>),
    StreamError(Seq<char>),
    StreamEnd,
}

pub open spec fn usage_view(u: Option<Usage>) -> Option<(Seq<char>, Seq<char>)> {
    match u {
        Some(u) => Some((u.input_tokens@, u.output_tokens@)),
        None => None,
    }
}

pub open spec fn text_view(t: Option<String>) -> Option<Seq<char>> {
    match t {
        Some(t) => Some(t@),
        None => None,
    }
}

impl View for NormalizedEvent {
    type V = EventView;

    open spec fn view(&self) -> EventView {
        match self {
            NormalizedEvent::TextDelta(t) => EventView::TextDelta(t@),
            NormalizedEvent::StreamStart(id) => EventView::StreamStart(text_view(*id)),
            NormalizedEvent::StreamFinish(r, u) => EventView::StreamFinish(r@, usage_view(*u)),
            NormalizedEvent::StreamError(m) => EventView::StreamError(m@),
            NormalizedEvent::StreamEnd => EventView::StreamEnd,
        }
    }
}

/// The views of a sequence of events.
pub open spec fn event_views(v: Seq<NormalizedEvent>) -> Seq<EventView> {
    v.map_values(|e: NormalizedEvent| e@)
}

/// Appends `more` to `out`.
pub fn append_events(out: &mut Vec<NormalizedEvent>, more: Vec<NormalizedEvent>)
    ensures
        event_views(final(out)@) == event_views(old(out)@) + event_views(more@),
{
    let mut more = more;
    let ghost orig = more@;
    out.append(&mut more);
    assert(event_views(final(out)@) =~= event_views(old(out)@) + event_views(orig));
}

} // verus!
