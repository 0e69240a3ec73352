use ai_stream::{
    block_payload, encode, encode_text, AnthropicProvider, BlockPayload, Channel, NormalizedEvent,
    OpenAIProvider, ProviderKind, Reassembler, Record, ServiceResponse, Usage,
};

#[test]
fn text_record_round_trips() {
    let t = "line one\nline \"two\"\t\\ caf\u{e9} \u{1F600}\u{1}";
    let line = encode_text(t);
    assert!(line.starts_with("0:\"") && line.ends_with("\"\n"));
    assert_eq!(line, "0:\"line one\\nline \\\"two\\\"\\t\\\\ caf\u{e9} \u{1F600}\\u0001\"\n");
    let literal = &line[2..line.len() - 1];
    let back: String = serde_json::from_str(literal).unwrap();
    assert_eq!(back, t);
}

#[test]
fn records_of_each_event() {
    assert_eq!(
        encode(&NormalizedEvent::TextDelta("Hi".to_string())),
        Record { channel: Channel::Chunk, payload: Some("0:\"Hi\"\n".to_string()) }
    );
    assert_eq!(
        encode(&NormalizedEvent::StreamStart(Some("msg_1".to_string()))),
        Record { channel: Channel::Chunk, payload: Some("f:{\"messageId\":\"msg_1\"}\n".to_string()) }
    );
    assert_eq!(
        encode(&NormalizedEvent::StreamStart(None)),
        Record { channel: Channel::Chunk, payload: Some("f:{}\n".to_string()) }
    );
    assert_eq!(
        encode(&NormalizedEvent::StreamFinish(
            "stop".to_string(),
            Some(Usage { input_tokens: "3".to_string(), output_tokens: "4".to_string() })
        )),
        Record {
            channel: Channel::Chunk,
            payload: Some(
                "d:{\"finishReason\":\"stop\",\"usage\":{\"promptTokens\":3,\"completionTokens\":4}}\n"
                    .to_string()
            )
        }
    );
    assert_eq!(
        encode(&NormalizedEvent::StreamFinish("length".to_string(), None)),
        Record { channel: Channel::Chunk, payload: Some("d:{\"finishReason\":\"length\"}\n".to_string()) }
    );
    assert_eq!(
        encode(&NormalizedEvent::StreamError("boom".to_string())),
        Record { channel: Channel::Error, payload: Some("boom".to_string()) }
    );
    assert_eq!(
        encode(&NormalizedEvent::StreamEnd),
        Record { channel: Channel::End, payload: None }
    );
    assert_eq!(Channel::Chunk.name(), "ai-stream-chunk");
    assert_eq!(Channel::Error.name(), "ai-stream-error");
    assert_eq!(Channel::End.name(), "ai-stream-end");
}

#[test]
fn frames_split_at_blank_lines() {
    let mut r = Reassembler::new();
    let blocks = r.ingest(b"a\n\nb\n\n\nc\n").unwrap();
    assert_eq!(blocks, vec![b"a".to_vec(), b"b".to_vec()]);
    let blocks = r.ingest(b"\nd").unwrap();
    assert_eq!(blocks, vec![b"\nc".to_vec()]);
    assert!(r.ingest(b"\xc3").is_err());
    let blocks = r.ingest(b"\n\n").unwrap();
    assert_eq!(blocks, vec![b"d".to_vec()]);
}

#[test]
fn frames_same_for_every_split() {
    let text: &[u8] = b"data: 1\n\nevent: e\ndata: 2\r\n\n\ndata: 3\n\ntail";
    let mut whole = Reassembler::new();
    let expected = whole.ingest(text).unwrap();
    assert_eq!(expected.len(), 3);
    for cut in 0..=text.len() {
        let mut r = Reassembler::new();
        let mut got = r.ingest(&text[..cut]).unwrap();
        got.extend(r.ingest(&text[cut..]).unwrap());
        assert_eq!(got, expected, "cut at {}", cut);
        for size in 1..4 {
            let mut r = Reassembler::new();
            let mut got = Vec::new();
            for piece in text.chunks(size) {
                got.extend(r.ingest(piece).unwrap());
            }
            assert_eq!(got, expected);
        }
    }
}

#[test]
fn payload_of_blocks() {
    assert_eq!(block_payload(b"event: ping\ndata: {\"a\":1}"), BlockPayload::Data(b"{\"a\":1}".to_vec()));
    assert_eq!(block_payload(b"data: first\r\ndata: second"), BlockPayload::Data(b"first".to_vec()));
    assert_eq!(block_payload(b"data: [DONE]"), BlockPayload::Sentinel);
    assert_eq!(block_payload(b"data:  [DONE] "), BlockPayload::Sentinel);
    assert_eq!(block_payload(b": keepalive"), BlockPayload::Absent);
    assert_eq!(block_payload(b"data: "), BlockPayload::Absent);
    assert_eq!(block_payload(b"data:x"), BlockPayload::Absent);
    assert_eq!(block_payload(b""), BlockPayload::Absent);
}

#[test]
fn provider_names_and_keys() {
    assert_eq!(ProviderKind::from_name("anthropic"), Some(ProviderKind::Anthropic));
    assert_eq!(ProviderKind::from_name("openai"), Some(ProviderKind::OpenAI));
    assert_eq!(ProviderKind::from_name("gemini"), None);
    assert_eq!(ProviderKind::Anthropic.api_key_variable(), "ANTHROPIC_API_KEY");
    assert_eq!(ProviderKind::OpenAI.api_key_variable(), "OPENAI_API_KEY");
}

#[test]
fn provider_requests() {
    let a = AnthropicProvider::new("k1".to_string());
    assert_eq!(a.api_key(), "k1");
    assert_eq!(a.kind(), ProviderKind::Anthropic);
    assert_eq!(a.endpoint(), "https://api.anthropic.com/v1/messages");
    assert_eq!(
        a.headers(),
        vec![
            ("content-type".to_string(), "application/json".to_string()),
            ("anthropic-version".to_string(), "2023-06-01".to_string()),
            ("x-api-key".to_string(), "k1".to_string()),
        ]
    );
    let o = OpenAIProvider::new("k2".to_string());
    assert_eq!(o.api_key(), "k2");
    assert_eq!(o.kind(), ProviderKind::OpenAI);
    assert_eq!(o.endpoint(), "https://api.openai.com/v1/chat/completions");
    assert_eq!(
        o.headers(),
        vec![
            ("content-type".to_string(), "application/json".to_string()),
            ("authorization".to_string(), "Bearer k2".to_string()),
        ]
    );
}

#[test]
fn service_replies() {
    let r = ServiceResponse::started("fs");
    assert!(r.success);
    assert_eq!(r.message, "Service fs started successfully");
    let r = ServiceResponse::stopped("fs");
    assert!(r.success);
    assert_eq!(r.message, "Service fs stopped successfully");
    let r = ServiceResponse::not_found("fs");
    assert!(!r.success);
    assert_eq!(r.message, "Service fs not found");
}

#[test]
fn text_line_has_one_line_feed() {
    let line = encode_text("a\nb\r\n\u{2028}c\n");
    assert_eq!(line.matches('\n').count(), 1);
    assert!(line.ends_with('\n'));
}
