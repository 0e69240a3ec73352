use ai_stream::{
    JsonValue, NormalizedEvent, Phase, ProviderKind, ProxyError, Session, Usage,
};

fn to_json(v: &serde_json::Value) -> JsonValue {
    match v {
        serde_json::Value::Null => JsonValue::Null,
        serde_json::Value::Bool(b) => JsonValue::Bool(*b),
        serde_json::Value::Number(n) => JsonValue::Number(n.to_string()),
        serde_json::Value::String(s) => JsonValue::Str(s.clone()),
        serde_json::Value::Array(a) => JsonValue::Array(a.iter().map(to_json).collect()),
        serde_json::Value::Object(m) => {
            JsonValue::Object(m.iter().map(|(k, v)| (k.clone(), to_json(v))).collect())
        }
    }
}

fn parse(p: &[u8]) -> Result<JsonValue, String> {
    serde_json::from_slice::<serde_json::Value>(p)
        .map(|v| to_json(&v))
        .map_err(|e| e.to_string())
}

fn streaming(kind: ProviderKind) -> Session {
    let mut s = Session::new(kind);
    s.upstream_accepted();
    s
}

fn feed(s: &mut Session, chunk: &[u8]) -> Vec<NormalizedEvent> {
    let mut out = s.receive_chunk(chunk);
    while let Some(p) = s.next_payload() {
        let parsed = parse(&p.clone());
        out.extend(s.accept_parsed(&parsed));
    }
    out
}

fn text(t: &str) -> NormalizedEvent {
    NormalizedEvent::TextDelta(t.to_string())
}

#[test]
fn anthropic_text_delta_scenario() {
    let mut s = streaming(ProviderKind::Anthropic);
    let out = feed(
        &mut s,
        b"data: {\"type\":\"content_block_delta\",\"delta\":{\"type\":\"text_delta\",\"text\":\"Hi\"}}\n\n",
    );
    assert_eq!(out, vec![text("Hi")]);
}

#[test]
fn openai_done_sentinel_scenario() {
    let mut s = streaming(ProviderKind::OpenAI);
    let out = feed(&mut s, b"data: [DONE]\n\n");
    assert!(out.is_empty());
    assert_eq!(s.upstream_exhausted(), vec![NormalizedEvent::StreamEnd]);
    assert_eq!(s.phase_of(), Phase::Ended);
}

#[test]
fn split_ping_scenario() {
    let mut r = ai_stream::Reassembler::new();
    let first = r.ingest(b"da").unwrap();
    assert!(first.is_empty());
    let second = r.ingest(b"ta: {\"type\":\"ping\"}\n\n").unwrap();
    assert_eq!(second, vec![b"data: {\"type\":\"ping\"}".to_vec()]);

    let mut s = streaming(ProviderKind::Anthropic);
    assert!(feed(&mut s, b"da").is_empty());
    assert!(feed(&mut s, b"ta: {\"type\":\"ping\"}\n\n").is_empty());
    assert_eq!(s.phase_of(), Phase::Streaming);
}

#[test]
fn malformed_payload_scenario() {
    for kind in [ProviderKind::Anthropic, ProviderKind::OpenAI] {
        let mut s = streaming(kind);
        let out = feed(&mut s, b"data: {not json}\n\n");
        assert_eq!(out.len(), 1);
        let prefix = format!("Failed to parse {} JSON: ", kind.display_name());
        match &out[0] {
            NormalizedEvent::StreamError(m) => assert!(m.starts_with(&prefix) && m.len() > prefix.len()),
            other => panic!("unexpected event {:?}", other),
        }
        assert_eq!(s.phase_of(), Phase::Streaming);
        let good: &[u8] = match kind {
            ProviderKind::Anthropic => b"data: {\"type\":\"content_block_delta\",\"delta\":{\"type\":\"text_delta\",\"text\":\"ok\"}}\n\n",
            ProviderKind::OpenAI => b"data: {\"id\":\"c1\",\"choices\":[{\"delta\":{\"content\":\"ok\"}}]}\n\n",
        };
        assert_eq!(feed(&mut s, good), vec![text("ok")]);
    }
}

#[test]
fn read_failure_scenario() {
    let mut s = streaming(ProviderKind::OpenAI);
    let out = feed(&mut s, b"data: {\"id\":\"c1\",\"choices\":[{\"delta\":{\"content\":\"Hel\"}}]}\n\n");
    assert_eq!(out, vec![text("Hel")]);
    let out = s.read_failed("connection reset");
    assert_eq!(
        out,
        vec![NormalizedEvent::StreamError(
            "Error reading OpenAI stream chunk: connection reset".to_string()
        )]
    );
    assert_eq!(s.phase_of(), Phase::Failed);
    assert_eq!(
        s.failure(),
        Some(&ProxyError::Http("Error reading OpenAI stream chunk: connection reset".to_string()))
    );
    assert!(s.upstream_exhausted().is_empty());
    assert!(feed(&mut s, b"data: {\"id\":\"c1\",\"choices\":[]}\n\n").is_empty());
}

#[test]
fn events_follow_block_order() {
    let mut s = streaming(ProviderKind::OpenAI);
    let out = feed(
        &mut s,
        b"data: {\"id\":\"a\",\"choices\":[{\"delta\":{\"content\":\"one\"}}]}\n\ndata: {\"id\":\"a\",\"choices\":[{\"delta\":{\"content\":\"two\"}},{\"delta\":{\"content\":\"three\"},\"finish_reason\":\"stop\"}]}\n\n",
    );
    assert_eq!(
        out,
        vec![
            text("one"),
            text("two"),
            text("three"),
            NormalizedEvent::StreamFinish("stop".to_string(), None)
        ]
    );
}

#[test]
fn chunking_does_not_change_events() {
    let whole: &[u8] = b"event: x\ndata: {\"type\":\"content_block_delta\",\"delta\":{\"type\":\"text_delta\",\"text\":\"a\\nb\"}}\n\ndata: {\"type\":\"ping\"}\n\ndata: {\"type\":\"content_block_delta\",\"delta\":{\"type\":\"text_delta\",\"text\":\"\xc3\xa9\"}}\n\n";
    let mut one = streaming(ProviderKind::Anthropic);
    let expected = feed(&mut one, whole);
    assert_eq!(expected, vec![text("a\nb"), text("\u{e9}")]);
    for cut in [1usize, 2, 7, 30, 60, 61, 62, 100, 187, 189, 193] {
        let cut = cut.min(whole.len());
        let mut s = streaming(ProviderKind::Anthropic);
        let mut out = feed(&mut s, &whole[..cut]);
        out.extend(feed(&mut s, &whole[cut..]));
        assert_eq!(out, expected, "cut at {}", cut);
    }
}

#[test]
fn stream_end_is_last_and_once() {
    let mut s = streaming(ProviderKind::Anthropic);
    assert_eq!(s.upstream_exhausted(), vec![NormalizedEvent::StreamEnd]);
    assert!(s.upstream_exhausted().is_empty());
    assert!(s.receive_chunk(b"data: {\"type\":\"message_stop\"}\n\n").is_empty());
    assert!(s.read_failed("late").is_empty());
    s.cancel();
    assert_eq!(s.phase_of(), Phase::Ended);
}

#[test]
fn draining_ends_after_queued_payloads() {
    let mut s = streaming(ProviderKind::Anthropic);
    assert!(s.receive_chunk(b"data: {\"type\":\"message_stop\"}\n\n").is_empty());
    assert!(s.upstream_exhausted().is_empty());
    assert_eq!(s.phase_of(), Phase::Draining);
    let p = s.next_payload().unwrap().clone();
    let out = s.accept_parsed(&parse(&p));
    assert_eq!(
        out,
        vec![NormalizedEvent::StreamFinish("stop".to_string(), None), NormalizedEvent::StreamEnd]
    );
    assert_eq!(s.phase_of(), Phase::Ended);
}

#[test]
fn cancelled_session_emits_nothing() {
    let mut s = streaming(ProviderKind::OpenAI);
    s.cancel();
    assert_eq!(s.phase_of(), Phase::Cancelled);
    assert!(feed(&mut s, b"data: {\"id\":\"a\",\"choices\":[{\"delta\":{\"content\":\"x\"}}]}\n\n").is_empty());
    assert!(s.upstream_exhausted().is_empty());
    assert!(s.failure().is_none());
}

#[test]
fn marker_events_are_silent() {
    let mut s = streaming(ProviderKind::Anthropic);
    let out = feed(
        &mut s,
        b"event: ping\ndata: {\"type\":\"ping\"}\n\ndata: {\"type\":\"content_block_start\",\"index\":0,\"content_block\":{\"type\":\"text\",\"text\":\"\"}}\n\ndata: {\"type\":\"content_block_stop\",\"index\":0}\n\ndata: {\"type\":\"message_delta\",\"delta\":{\"stop_reason\":\"end_turn\"},\"usage\":{\"output_tokens\":15}}\n\n: keepalive\n\n",
    );
    assert!(out.is_empty());
}

#[test]
fn anthropic_start_finish_and_error() {
    let mut s = streaming(ProviderKind::Anthropic);
    let out = feed(
        &mut s,
        b"data: {\"type\":\"message_start\",\"message\":{\"id\":\"msg_1\",\"role\":\"assistant\"}}\n\ndata: {\"type\":\"message_stop\",\"usage\":{\"input_tokens\":10,\"output_tokens\":25}}\n\ndata: {\"type\":\"error\",\"error\":{\"type\":\"overloaded_error\",\"message\":\"Overloaded\"}}\n\n",
    );
    assert_eq!(
        out,
        vec![
            NormalizedEvent::StreamStart(Some("msg_1".to_string())),
            NormalizedEvent::StreamFinish(
                "stop".to_string(),
                Some(Usage { input_tokens: "10".to_string(), output_tokens: "25".to_string() })
            ),
            NormalizedEvent::StreamError(
                "Anthropic API Error Event: [overloaded_error] Overloaded".to_string()
            ),
        ]
    );
    assert_eq!(s.phase_of(), Phase::Streaming);
}

#[test]
fn unexpected_shape_is_reported() {
    let mut s = streaming(ProviderKind::Anthropic);
    let out = feed(&mut s, b"data: {\"kind\":\"content_block_delta\"}\n\n");
    assert_eq!(
        out,
        vec![NormalizedEvent::StreamError(
            "Failed to parse Anthropic JSON: unexpected event shape".to_string()
        )]
    );
    let mut s = streaming(ProviderKind::OpenAI);
    let out = feed(&mut s, b"data: {\"id\":\"a\",\"choices\":[1]}\n\n");
    assert_eq!(
        out,
        vec![NormalizedEvent::StreamError(
            "Failed to parse OpenAI JSON: unexpected event shape".to_string()
        )]
    );
}

#[test]
fn openai_empty_content_and_role_only() {
    let mut s = streaming(ProviderKind::OpenAI);
    let out = feed(
        &mut s,
        b"data: {\"id\":\"a\",\"object\":\"chat.completion.chunk\",\"choices\":[{\"index\":0,\"delta\":{\"role\":\"assistant\",\"content\":\"\"}}]}\n\ndata: {\"id\":\"a\",\"choices\":[{\"index\":0,\"delta\":{},\"finish_reason\":\"length\"}]}\n\n",
    );
    assert_eq!(out, vec![NormalizedEvent::StreamFinish("length".to_string(), None)]);
}

#[test]
fn invalid_utf8_chunk_is_recoverable() {
    let mut s = streaming(ProviderKind::Anthropic);
    let out = feed(&mut s, b"data: \xff\n\n");
    assert_eq!(out.len(), 1);
    match &out[0] {
        NormalizedEvent::StreamError(m) => {
            assert!(m.starts_with("Failed to decode Anthropic chunk as UTF-8: invalid utf-8"))
        }
        other => panic!("unexpected event {:?}", other),
    }
    assert_eq!(s.phase_of(), Phase::Streaming);
    let out = feed(
        &mut s,
        b"data: {\"type\":\"content_block_delta\",\"delta\":{\"type\":\"text_delta\",\"text\":\"x\"}}\n\n",
    );
    assert_eq!(out, vec![text("x")]);
}

#[test]
fn request_failure_is_fatal() {
    let mut s = Session::new(ProviderKind::Anthropic);
    let out = s.request_failed("dns error");
    assert_eq!(
        out,
        vec![NormalizedEvent::StreamError(
            "Anthropic request failed (network/connection): dns error".to_string()
        )]
    );
    assert_eq!(s.phase_of(), Phase::Failed);
    assert!(matches!(s.failure(), Some(ProxyError::Http(_))));
    assert!(s.receive_chunk(b"data: x\n\n").is_empty());
}

#[test]
fn rejected_status_is_fatal() {
    let mut s = Session::new(ProviderKind::OpenAI);
    let out = s.upstream_rejected(401, "401 Unauthorized", "{\"error\":\"bad key\"}");
    assert_eq!(
        out,
        vec![NormalizedEvent::StreamError(
            "OpenAI API request failed with status 401 Unauthorized: {\"error\":\"bad key\"}".to_string()
        )]
    );
    assert_eq!(s.failure(), Some(&ProxyError::Status(401)));
    assert!(s.upstream_exhausted().is_empty());
}

#[test]
fn emit_failure_is_fatal() {
    let mut s = streaming(ProviderKind::OpenAI);
    s.emit_failed("window closed".to_string());
    assert_eq!(s.phase_of(), Phase::Failed);
    assert_eq!(s.failure(), Some(&ProxyError::Emit("window closed".to_string())));
    assert!(s.upstream_exhausted().is_empty());
}

#[test]
fn markers_ignore_members_they_do_not_use() {
    let mut s = streaming(ProviderKind::Anthropic);
    let out = feed(
        &mut s,
        b"data: {\"type\":\"ping\",\"delta\":5,\"error\":\"x\"}\n\ndata: {\"type\":\"content_block_stop\",\"delta\":[1]}\n\n",
    );
    assert!(out.is_empty());
    let out = feed(&mut s, b"data: {\"type\":\"content_block_delta\",\"delta\":5}\n\n");
    assert_eq!(
        out,
        vec![NormalizedEvent::StreamError(
            "Failed to parse Anthropic JSON: unexpected event shape".to_string()
        )]
    );
    let out = feed(&mut s, b"data: {\"type\":\"error\",\"error\":\"bad\"}\n\n");
    assert_eq!(
        out,
        vec![NormalizedEvent::StreamError(
            "Failed to parse Anthropic JSON: unexpected event shape".to_string()
        )]
    );
}

#[test]
fn full_session_record_sequence() {
    let mut s = Session::new(ProviderKind::Anthropic);
    s.upstream_accepted();
    assert!(s.next_payload().is_none());
    let mut records = Vec::new();
    for chunk in [&b"data: {not json}\n\n"[..], &b"data: {\"type\":\"content_block_delta\",\"delta\":{\"type\":\"text_delta\",\"text\":\"ok\"}}\n\n"[..]] {
        records.extend(feed(&mut s, chunk).iter().map(ai_stream::encode));
    }
    records.extend(s.upstream_exhausted().iter().map(ai_stream::encode));
    assert_eq!(records.len(), 3);
    assert_eq!(records[0].channel, ai_stream::Channel::Error);
    assert_eq!(records[1].payload.as_deref(), Some("0:\"ok\"\n"));
    assert_eq!(records[2], ai_stream::Record { channel: ai_stream::Channel::End, payload: None });
}
