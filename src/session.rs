//! One translation session: the decisions of the transport driver.
//!
//! The caller performs the outside work (the request, reading the body,
//! parsing payloads as JSON, delivering records) and reports each outcome;
//! the session answers with the events to deliver, in order.
use vstd::prelude::*;
use crate::decode::{events_for_payload, lemma_payload_events_no_end, payload_events};
use crate::event::{append_events, event_views, EventView, NormalizedEvent};
use crate::frame::{ingest_spec, utf8_error_text, views, Reassembler};
use crate::json::JsonValue;
use crate::payload::{block_payload, payload_of, BlockPayload, PayloadView};
use crate::provider::{display_name, join, ProviderKind};

verus! {

/// Why an operation failed.
#[derive(Debug, Clone, PartialEq, Eq)]
pub enum ProxyError {
    /// The API key could not be loaded or used.
    ApiKey(String),
    /// The connection or a read of the response body failed.
    Http(String),
    /// The upstream answered with this non-success status code.
    Status(u16),
    /// A document could not be parsed.
    Parse(String),
    /// The consumer could not receive a record.
    Emit(String),
}

/// Where a session stands.
#[derive(PartialEq, Eq, Structural, Clone, Copy, Debug)]
pub enum Phase {
    /// The upstream request is under way.
    Connecting,
    /// The response body is being read.
    Streaming,
    /// The body is exhausted; payloads still wait to be translated.
    Draining,
    /// Gracefully ended; `StreamEnd` was the last event.
    Ended,
    /// Ended by a fatal failure.
    Failed,
    /// Ended at the caller's request.
    Cancelled,
}

pub open spec fn is_terminal(p: Phase) -> bool {
    p == Phase::Ended || p == Phase::Failed || p == Phase::Cancelled
}

/// The payloads of the blocks that carry a JSON document, in block order.
pub open spec fn data_payloads(blocks: Seq<Seq<u8>>) -> Seq<Seq<u8>>
    decreases blocks.len(),
{
    if blocks.len() == 0 {
        Seq::empty()
    } else {
        let before = data_payloads(blocks.drop_last());
        match payload_of(blocks.last()) {
            PayloadView::Data(p) => before.push(p),
            _ => before,
        }
    }
}

/// True when `StreamEnd` occurs in `t` at any place but the last.
pub open spec fn end_before_last(t: Seq<EventView>) -> bool {
    exists|j: int| 0 <= j < t.len() - 1 && t[j] == EventView::StreamEnd
}

/// True when `t` ends with `StreamEnd`.
pub open spec fn ends_with_end(t: Seq<EventView>) -> bool {
    t.len() > 0 && t.last() == EventView::StreamEnd
}

pub open spec fn request_failed_message(kind: ProviderKind, detail: Seq<char>) -> Seq<char> {
    display_name(kind) + " request failed (network/connection): "@ + detail
}

pub open spec fn rejected_message(
    kind: ProviderKind,
    status_text: Seq<char>,
    body: Seq<char>,
) -> Seq<char> {
    display_name(kind) + " API request failed with status "@ + status_text + ": "@ + body
}

pub open spec fn utf8_failure_message(kind: ProviderKind, detail: Seq<char>) -> Seq<char> {
    "Failed to decode "@ + display_name(kind) + " chunk as UTF-8: "@ + detail
}

pub open spec fn read_failure_message(kind: ProviderKind, detail: Seq<char>) -> Seq<char> {
    "Error reading "@ + display_name(kind) + " stream chunk: "@ + detail
}

/// True when `b` holds the same buffered text, extracted payloads, count of
/// translated payloads and queue as `a`.
pub open spec fn same_data(a: Session, b: Session) -> bool {
    &&& b.buffered() == a.buffered()
    &&& b.extracted() == a.extracted()
    &&& b.consumed() == a.consumed()
    &&& b.pending() == a.pending()
}

/// One live translation for one request.
pub struct Session {
    kind: ProviderKind,
    phase: Phase,
    error: Option<ProxyError>,
    frames: Reassembler,
    pending: Vec<Vec<u8>>,
    trace: Ghost<Seq<EventView>>,
    extracted: Ghost<Seq<Seq<u8>>>,
    consumed: Ghost<nat>,
}

impl Session {
    /// The schema selector of the session.
    pub closed spec fn kind(&self) -> ProviderKind {
        self.kind
    }

    pub closed spec fn phase(&self) -> Phase {
        self.phase
    }

    /// The error that the operation reports, once it has failed.
    pub closed spec fn error(&self) -> Option<ProxyError> {
        self.error
    }

    /// Every event the session has produced so far, in order.
    pub closed spec fn trace(&self) -> Seq<EventView> {
        self.trace@
    }

    /// Every JSON payload extracted so far, in extraction order.
    pub closed spec fn extracted(&self) -> Seq<Seq<u8>> {
        self.extracted@
    }

    /// How many of the extracted payloads have been translated.
    pub closed spec fn consumed(&self) -> nat {
        self.consumed@
    }

    /// The payloads that wait to be translated, oldest first.
    pub closed spec fn pending(&self) -> Seq<Seq<u8>> {
        views(self.pending@)
    }

    /// The received text not yet consumed as a complete block.
    pub closed spec fn buffered(&self) -> Seq<u8> {
        self.frames.buffered()
    }

    pub closed spec fn wf(&self) -> bool {
        &&& self.consumed@ <= self.extracted@.len()
        &&& views(self.pending@) == self.extracted@.subrange(
            self.consumed@ as int,
            self.extracted@.len() as int,
        )
        &&& !end_before_last(self.trace@)
        &&& ends_with_end(self.trace@) <==> self.phase == Phase::Ended
        &&& self.phase == Phase::Draining ==> self.pending@.len() > 0
        &&& self.phase == Phase::Failed ==> self.error is Some
    }

    /// A session for the schema that `kind` selects, before the request.
    pub fn new(kind: ProviderKind) -> (r: Session)
        ensures
            r.wf(),
            r.kind() == kind,
            r.phase() == Phase::Connecting,
            r.error() is None,
            r.trace() == Seq::<EventView>::empty(),
            r.extracted() == Seq::<Seq<u8>>::empty(),
            r.consumed() == 0,
            r.buffered() == Seq::<u8>::empty(),
            r.pending() == Seq::<Seq<u8>>::empty(),
    {
        let s = Session {
            kind,
            phase: Phase::Connecting,
            error: None,
            frames: Reassembler::new(),
            pending: Vec::new(),
            trace: Ghost(Seq::empty()),
            extracted: Ghost(Seq::empty()),
            consumed: Ghost(0),
        };
        assert(views(s.pending@) =~= s.extracted@.subrange(0, 0));
        s
    }

    pub fn kind_of(&self) -> (r: ProviderKind)
        ensures
            r == self.kind(),
    {
        self.kind
    }

    pub fn phase_of(&self) -> (r: Phase)
        ensures
            r == self.phase(),
    {
        self.phase
    }

    /// The error that the operation reports, once it has failed.
    pub fn failure(&self) -> (r: Option<&ProxyError>)
        ensures
            match r {
                Some(e) => self.error() == Some(*e),
                None => self.error() is None,
            },
    {
        match &self.error {
            Some(e) => Some(e),
            None => None,
        }
    }

    /// The oldest payload that waits to be parsed and translated.
    pub fn next_payload(&self) -> (r: Option<&Vec<u8>>)
        requires
            self.wf(),
        ensures
            match r {
                Some(p) => self.pending().len() > 0 && p@ == self.pending()[0],
                None => self.pending().len() == 0,
            },
    {
        if self.pending.len() > 0 {
            Some(&self.pending[0])
        } else {
            None
        }
    }

    /// Records `more` as produced.
    fn record(&mut self, more: &Vec<NormalizedEvent>)
        ensures
            final(self).trace() == old(self).trace() + event_views(more@),
            final(self).kind == old(self).kind,
            final(self).phase == old(self).phase,
            final(self).error == old(self).error,
            final(self).frames == old(self).frames,
            final(self).pending == old(self).pending,
            final(self).extracted == old(self).extracted,
            final(self).consumed == old(self).consumed,
    {
        self.trace = Ghost(self.trace@ + event_views(more@));
    }

    /// The upstream accepted the request: the body is read from now on.
    pub fn upstream_accepted(&mut self)
        requires
            old(self).wf(),
        ensures
            final(self).wf(),
            final(self).kind() == old(self).kind(),
            final(self).trace() == old(self).trace(),
            final(self).error() == old(self).error(),
            same_data(*old(self), *final(self)),
            final(self).phase() == if old(self).phase() == Phase::Connecting {
                Phase::Streaming
            } else {
                old(self).phase()
            },
    {
        if self.phase == Phase::Connecting {
            self.phase = Phase::Streaming;
        }
    }

    /// The request did not reach the upstream: fatal before any byte streamed.
    pub fn request_failed(&mut self, detail: &str) -> (r: Vec<NormalizedEvent>)
        requires
            old(self).wf(),
        ensures
            final(self).wf(),
            final(self).kind() == old(self).kind(),
            old(self).phase() == Phase::Connecting ==> {
                let m = request_failed_message(old(self).kind(), detail@);
                &&& same_data(*old(self), *final(self))
                &&& event_views(r@) == seq![EventView::StreamError(m)]
                &&& final(self).phase() == Phase::Failed
                &&& final(self).error() matches Some(ProxyError::Http(e)) && e@ == m
                &&& final(self).trace() == old(self).trace() + event_views(r@)
            },
            old(self).phase() != Phase::Connecting ==> r@.len() == 0 && *final(self) == *old(
                self,
            ),
    {
        if self.phase != Phase::Connecting {
            return Vec::new();
        }
        let m = join(self.kind.display_name(), " request failed (network/connection): ");
        let m = join(m.as_str(), detail);
        self.fail(ProxyError::Http(m.clone()), m)
    }

    /// The upstream answered with a non-success status: fatal before any byte
    /// streamed. `status_text` is the status as the transport writes it.
    pub fn upstream_rejected(&mut self, status: u16, status_text: &str, body: &str) -> (r: Vec<
        NormalizedEvent,
    >)
        requires
            old(self).wf(),
        ensures
            final(self).wf(),
            final(self).kind() == old(self).kind(),
            old(self).phase() == Phase::Connecting ==> {
                let m = rejected_message(old(self).kind(), status_text@, body@);
                &&& same_data(*old(self), *final(self))
                &&& event_views(r@) == seq![EventView::StreamError(m)]
                &&& final(self).phase() == Phase::Failed
                &&& final(self).error() == Some(ProxyError::Status(status))
                &&& final(self).trace() == old(self).trace() + event_views(r@)
            },
            old(self).phase() != Phase::Connecting ==> r@.len() == 0 && *final(self) == *old(
                self,
            ),
    {
        if self.phase != Phase::Connecting {
            return Vec::new();
        }
        let m = join(self.kind.display_name(), " API request failed with status ");
        let m = join(m.as_str(), status_text);
        let m = join(m.as_str(), ": ");
        let m = join(m.as_str(), body);
        self.fail(ProxyError::Status(status), m)
    }

    /// Reading the response body failed: fatal; no further chunk is read.
    pub fn read_failed(&mut self, detail: &str) -> (r: Vec<NormalizedEvent>)
        requires
            old(self).wf(),
        ensures
            final(self).wf(),
            final(self).kind() == old(self).kind(),
            old(self).phase() == Phase::Streaming ==> {
                let m = read_failure_message(old(self).kind(), detail@);
                &&& same_data(*old(self), *final(self))
                &&& event_views(r@) == seq![EventView::StreamError(m)]
                &&& final(self).phase() == Phase::Failed
                &&& final(self).error() matches Some(ProxyError::Http(e)) && e@ == m
                &&& final(self).trace() == old(self).trace() + event_views(r@)
            },
            old(self).phase() != Phase::Streaming ==> r@.len() == 0 && *final(self) == *old(
                self,
            ),
    {
        if self.phase != Phase::Streaming {
            return Vec::new();
        }
        let m = join("Error reading ", self.kind.display_name());
        let m = join(m.as_str(), " stream chunk: ");
        let m = join(m.as_str(), detail);
        self.fail(ProxyError::Http(m.clone()), m)
    }

    /// Takes one chunk of the response body. Its complete blocks are split off
    /// and their JSON payloads queued, in block order; a chunk that is not
    /// valid UTF-8 is dropped and reported as one recoverable error event.
    pub fn receive_chunk(&mut self, chunk: &[u8]) -> (r: Vec<NormalizedEvent>)
        requires
            old(self).wf(),
        ensures
            final(self).wf(),
            final(self).kind() == old(self).kind(),
            old(self).phase() != Phase::Streaming ==> r@.len() == 0 && *final(self) == *old(
                self,
            ),
            old(self).phase() == Phase::Streaming ==> {
                let (blocks, rest) = ingest_spec(old(self).buffered(), chunk@);
                &&& final(self).phase() == Phase::Streaming
                &&& final(self).error() == old(self).error()
                &&& final(self).consumed() == old(self).consumed()
                &&& final(self).trace() == old(self).trace() + event_views(r@)
                &&& final(self).buffered() == rest
                &&& final(self).extracted() == old(self).extracted() + data_payloads(blocks)
                &&& final(self).pending() == old(self).pending() + data_payloads(blocks)
                &&& vstd::utf8::valid_utf8(chunk@) ==> r@.len() == 0
                &&& !vstd::utf8::valid_utf8(chunk@) ==> event_views(r@) == seq![
                    EventView::StreamError(
                        utf8_failure_message(old(self).kind(), utf8_error_text(chunk@)),
                    ),
                ]
            },
    {
        if self.phase != Phase::Streaming {
            return Vec::new();
        }
        match self.frames.ingest(chunk) {
            Err(e) => {
                let m = join("Failed to decode ", self.kind.display_name());
                let m = join(m.as_str(), " chunk as UTF-8: ");
                let m = join(m.as_str(), e.as_str());
                let out = vec![NormalizedEvent::StreamError(m)];
                assert(event_views(out@) =~= seq![EventView::StreamError(m@)]);
                proof {
                    lemma_extend_trace(self.trace@, event_views(out@));
                    assert(data_payloads(Seq::empty()) =~= Seq::<Seq<u8>>::empty());
                    assert(self.extracted@ + Seq::<Seq<u8>>::empty() =~= self.extracted@);
                }
                self.record(&out);
                out
            },
            Ok(blocks) => {
                let ghost bv = views(blocks@);
                let mut i: usize = 0;
                while i < blocks.len()
                    invariant
                        i <= blocks@.len(),
                        bv == views(blocks@),
                        self.phase == Phase::Streaming,
                        self.kind == old(self).kind,
                        self.error == old(self).error,
                        self.trace == old(self).trace,
                        self.consumed == old(self).consumed,
                        bv == ingest_spec(old(self).frames.buffered(), chunk@).0,
                        self.frames.buffered() == ingest_spec(old(self).frames.buffered(), chunk@).1,
                        self.consumed@ <= self.extracted@.len(),
                        self.extracted@ == old(self).extracted@ + data_payloads(bv.take(i as int)),
                        views(self.pending@) == self.extracted@.subrange(
                            self.consumed@ as int,
                            self.extracted@.len() as int,
                        ),
                    decreases blocks@.len() - i,
                {
                    assert(bv.take(i + 1).drop_last() =~= bv.take(i as int));
                    assert(bv.take(i + 1).last() == blocks@[i as int]@);
                    match block_payload(blocks[i].as_slice()) {
                        BlockPayload::Data(p) => {
                            let ghost before = self.pending@;
                            self.pending.push(p);
                            self.extracted = Ghost(self.extracted@.push(p@));
                            assert(views(self.pending@) =~= views(before).push(p@));
                            assert(self.extracted@.subrange(
                                self.consumed@ as int,
                                self.extracted@.len() as int,
                            ) =~= views(before).push(p@));
                            assert(self.extracted@ =~= old(self).extracted@ + data_payloads(
                                bv.take(i + 1),
                            ));
                        },
                        _ => {
                            assert(self.extracted@ =~= old(self).extracted@ + data_payloads(
                                bv.take(i + 1),
                            ));
                        },
                    }
                    i = i + 1;
                }
                assert(bv.take(i as int) =~= bv);
                Vec::new()
            },
        }
    }

    /// Translates the oldest queued payload, given the outcome of parsing it
    /// as JSON (the document, or the parser's error text). When the body is
    /// exhausted and this was the last payload, `StreamEnd` follows.
    pub fn accept_parsed(&mut self, parsed: &Result<JsonValue, String>) -> (r: Vec<
        NormalizedEvent,
    >)
        requires
            old(self).wf(),
        ensures
            final(self).wf(),
            final(self).kind() == old(self).kind(),
            final(self).error() == old(self).error(),
            final(self).extracted() == old(self).extracted(),
            final(self).buffered() == old(self).buffered(),
            final(self).trace() == old(self).trace() + event_views(r@),
            ({
                let working = old(self).phase() == Phase::Streaming || old(self).phase()
                    == Phase::Draining;
                let last = old(self).phase() == Phase::Draining && old(self).pending().len() == 1;
                if working && old(self).pending().len() > 0 {
                    &&& final(self).consumed() == old(self).consumed() + 1
                    &&& final(self).pending() == old(self).pending().drop_first()
                    &&& event_views(r@) == payload_events(old(self).kind(), *parsed) + if last {
                        seq![EventView::StreamEnd]
                    } else {
                        Seq::empty()
                    }
                    &&& final(self).phase() == if last {
                        Phase::Ended
                    } else {
                        old(self).phase()
                    }
                } else {
                    r@.len() == 0 && *final(self) == *old(self)
                }
            }),
    {
        if !(self.phase == Phase::Streaming || self.phase == Phase::Draining) || self.pending.len()
            == 0 {
            return Vec::new();
        }
        let ghost before = self.pending@;
        let _done = self.pending.remove(0);
        assert(views(self.pending@) =~= views(before).drop_first());
        self.consumed = Ghost(self.consumed@ + 1);
        assert(views(self.pending@) =~= self.extracted@.subrange(
            self.consumed@ as int,
            self.extracted@.len() as int,
        ));
        let mut out = events_for_payload(self.kind, parsed);
        let ghost first = event_views(out@);
        proof {
            lemma_payload_events_no_end(self.kind, *parsed);
        }
        if self.phase == Phase::Draining && self.pending.len() == 0 {
            out.push(NormalizedEvent::StreamEnd);
            self.phase = Phase::Ended;
            assert(event_views(out@) =~= first + seq![EventView::StreamEnd]);
        } else {
            assert(first + Seq::<EventView>::empty() =~= first);
        }
        proof {
            lemma_extend_trace(self.trace@, event_views(out@));
        }
        self.record(&out);
        out
    }

    /// The response body is exhausted without a transport error. The session
    /// ends with `StreamEnd` at once, or after the queued payloads.
    pub fn upstream_exhausted(&mut self) -> (r: Vec<NormalizedEvent>)
        requires
            old(self).wf(),
        ensures
            final(self).wf(),
            final(self).kind() == old(self).kind(),
            final(self).error() == old(self).error(),
            final(self).trace() == old(self).trace() + event_views(r@),
            same_data(*old(self), *final(self)),
            old(self).phase() != Phase::Streaming ==> r@.len() == 0 && *final(self) == *old(
                self,
            ),
            old(self).phase() == Phase::Streaming && old(self).pending().len() == 0 ==> {
                &&& event_views(r@) == seq![EventView::StreamEnd]
                &&& final(self).phase() == Phase::Ended
            },
            old(self).phase() == Phase::Streaming && old(self).pending().len() > 0 ==> {
                &&& r@.len() == 0
                &&& final(self).phase() == Phase::Draining
                &&& final(self).pending() == old(self).pending()
            },
    {
        if self.phase != Phase::Streaming {
            return Vec::new();
        }
        if self.pending.len() > 0 {
            self.phase = Phase::Draining;
            assert(self.trace@ + event_views(Seq::<NormalizedEvent>::empty()) =~= self.trace@);
            return Vec::new();
        }
        let out = vec![NormalizedEvent::StreamEnd];
        assert(event_views(out@) =~= seq![EventView::StreamEnd]);
        proof {
            lemma_extend_trace(self.trace@, event_views(out@));
        }
        self.record(&out);
        self.phase = Phase::Ended;
        out
    }

    /// Enters `Failed` with `err`, producing one error event with `message`.
    fn fail(&mut self, err: ProxyError, message: String) -> (r: Vec<NormalizedEvent>)
        requires
            old(self).wf(),
            !is_terminal(old(self).phase()),
        ensures
            final(self).wf(),
            final(self).kind() == old(self).kind(),
            event_views(r@) == seq![EventView::StreamError(message@)],
            final(self).phase() == Phase::Failed,
            final(self).error() == Some(err),
            final(self).trace() == old(self).trace() + event_views(r@),
            same_data(*old(self), *final(self)),
    {
        let out = vec![NormalizedEvent::StreamError(message)];
        assert(event_views(out@) =~= seq![EventView::StreamError(message@)]);
        proof {
            lemma_extend_trace(self.trace@, event_views(out@));
        }
        self.record(&out);
        self.phase = Phase::Failed;
        self.error = Some(err);
        out
    }

    /// Delivering a record failed: the consumer cannot receive, so the session
    /// cannot usefully go on. The operation reports `Emit(detail)`.
    pub fn emit_failed(&mut self, detail: String)
        requires
            old(self).wf(),
        ensures
            final(self).wf(),
            final(self).kind() == old(self).kind(),
            final(self).trace() == old(self).trace(),
            same_data(*old(self), *final(self)),
            old(self).phase() == Phase::Cancelled ==> *final(self) == *old(self),
            old(self).phase() != Phase::Cancelled ==> {
                &&& final(self).error() == Some(ProxyError::Emit(detail))
                &&& final(self).phase() == if old(self).phase() == Phase::Ended {
                    Phase::Ended
                } else {
                    Phase::Failed
                }
            },
    {
        if self.phase == Phase::Cancelled {
            return ;
        }
        if self.phase != Phase::Ended {
            self.phase = Phase::Failed;
        }
        self.error = Some(ProxyError::Emit(detail));
    }

    /// The caller cancelled the operation: no further event, not even an end
    /// or an error.
    pub fn cancel(&mut self)
        requires
            old(self).wf(),
        ensures
            final(self).wf(),
            final(self).kind() == old(self).kind(),
            final(self).trace() == old(self).trace(),
            final(self).error() == old(self).error(),
            same_data(*old(self), *final(self)),
            final(self).phase() == if is_terminal(old(self).phase()) {
                old(self).phase()
            } else {
                Phase::Cancelled
            },
    {
        if !(self.phase == Phase::Ended || self.phase == Phase::Failed || self.phase
            == Phase::Cancelled) {
            self.phase = Phase::Cancelled;
        }
    }
}

/// Appending events that hold no `StreamEnd` but possibly as their last keeps
/// `StreamEnd` out of all places but the last.
proof fn lemma_extend_trace(t: Seq<EventView>, e: Seq<EventView>)
    requires
        !end_before_last(t),
        !ends_with_end(t),
        forall|j: int| 0 <= j < e.len() - 1 ==> e[j] != EventView::StreamEnd,
    ensures
        !end_before_last(t + e),
        ends_with_end(t + e) == if e.len() == 0 {
            ends_with_end(t)
        } else {
            ends_with_end(e)
        },
{
    let te = t + e;
    if e.len() == 0 {
        assert(te =~= t);
    } else {
        assert forall|j: int| 0 <= j < te.len() - 1 implies te[j] != EventView::StreamEnd by {
            if j < t.len() {
                if j == t.len() - 1 {
                    assert(t[j] == t.last());
                }
            } else {
                assert(te[j] == e[j - t.len()]);
            }
        }
        assert(te.last() == e.last());
    }
}


/// `StreamEnd` is terminal. In every state that the session's methods reach,
/// `StreamEnd` occurs at most once and only as the last event, and it is there
/// exactly when the session ended gracefully: a failed or cancelled session
/// has produced none. (Each method also produces no event once the session is
/// ended, failed or cancelled.)
pub proof fn lemma_stream_end_terminal(s: Session)
    requires
        s.wf(),
    ensures
        forall|j: int| 0 <= j < s.trace().len() - 1 ==> s.trace()[j] != EventView::StreamEnd,
        ends_with_end(s.trace()) <==> s.phase() == Phase::Ended,
        s.phase() == Phase::Failed || s.phase() == Phase::Cancelled ==> forall|j: int|
            0 <= j < s.trace().len() ==> s.trace()[j] != EventView::StreamEnd,
{
    let t = s.trace();
    assert forall|j: int| 0 <= j < t.len() - 1 implies t[j] != EventView::StreamEnd by {
        if t[j] == EventView::StreamEnd {
            assert(end_before_last(t));
        }
    }
    if s.phase() == Phase::Failed || s.phase() == Phase::Cancelled {
        assert forall|j: int| 0 <= j < t.len() implies t[j] != EventView::StreamEnd by {
            if j == t.len() - 1 {
                assert(t[j] == t.last());
            }
        }
    }
}

/// Payloads are translated in the order their blocks were extracted: the
/// queue holds exactly the extracted payloads not yet translated, oldest
/// first, so the payload translated next is always the earliest one left.
pub proof fn lemma_translation_order(s: Session)
    requires
        s.wf(),
    ensures
        s.consumed() <= s.extracted().len(),
        s.pending() == s.extracted().subrange(s.consumed() as int, s.extracted().len() as int),
{
}

/// Blocks keep their order across chunks: the payloads of two runs of blocks
/// are the payloads of the first run followed by those of the second.
pub proof fn lemma_data_payloads_append(a: Seq<Seq<u8>>, b: Seq<Seq<u8>>)
    ensures
        data_payloads(a + b) == data_payloads(a) + data_payloads(b),
    decreases b.len(),
{
    if b.len() == 0 {
        assert(a + b =~= a);
        assert(data_payloads(a) + data_payloads(b) =~= data_payloads(a));
    } else {
        assert((a + b).drop_last() =~= a + b.drop_last());
        assert((a + b).last() == b.last());
        lemma_data_payloads_append(a, b.drop_last());
        match payload_of(b.last()) {
            PayloadView::Data(p) => {
                assert(data_payloads(a) + data_payloads(b.drop_last()).push(p) =~= (data_payloads(a)
                    + data_payloads(b.drop_last())).push(p));
            },
            _ => {},
        }
    }
}


/// A block without a JSON payload (a comment or keepalive line, an empty
/// payload, or the end-of-stream sentinel) queues nothing, so it produces no
/// normalized event.
pub proof fn lemma_silent_blocks(b: Seq<u8>)
    requires
        !(payload_of(b) is Data),
    ensures
        data_payloads(seq![b]) == Seq::<Seq<u8>>::empty(),
{
    assert(seq![b].drop_last() =~= Seq::<Seq<u8>>::empty());
    assert(seq![b].last() == b);
    assert(data_payloads(Seq::<Seq<u8>>::empty()) == Seq::<Seq<u8>>::empty());
}

} // verus!
