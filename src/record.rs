//! Encoding of normalized events as records for the consumer sink.
use vstd::prelude::*;
use crate::event::{EventView, NormalizedEvent, Usage};
use crate::provider::join;

verus! {

// ----- JSON string literals -----

/// The lowercase hexadecimal digit of `d` (`0 <= d < 16`).
pub open spec fn hex_digit(d: int) -> char {
    if d < 10 {
        ((d + 48) as u32) as char
    } else {
        ((d + 87) as u32) as char
    }
}

/// How one character is written inside a JSON string literal: quote and
/// backslash get a backslash, the control characters below U+0020 their short
/// escape or a `\u00XX` escape, every other character stands for itself.
pub open spec fn escape_char(c: char) -> Seq<char> {
    if c == '"' {
        seq!['\\', '"']
    } else if c == '\\' {
        seq!['\\', '\\']
    } else if c == '\u{8}' {
        seq!['\\', 'b']
    } else if c == '\t' {
        seq!['\\', 't']
    } else if c == '\n' {
        seq!['\\', 'n']
    } else if c == '\u{c}' {
        seq!['\\', 'f']
    } else if c == '\r' {
        seq!['\\', 'r']
    } else if (c as u32) < 32 {
        seq!['\\', 'u', '0', '0', hex_digit((c as u32) as int / 16), hex_digit((c as u32) as int % 16)]
    } else {
        seq![c]
    }
}

/// The escaped form of `s`, character by character.
pub open spec fn escape(s: Seq<char>) -> Seq<char>
    decreases s.len(),
{
    if s.len() == 0 {
        Seq::empty()
    } else {
        escape_char(s[0]) + escape(s.drop_first())
    }
}

/// The JSON string literal of `s`.
pub open spec fn json_quoted(s: Seq<char>) -> Seq<char> {
    seq!['"'] + escape(s) + seq!['"']
}

/// Relies on `serde_json::to_string` on a `str`: it writes the JSON string
/// literal of its argument, escaping as `escape_char` says; serializing a
/// string into memory does not fail.
#[verifier::external_body]
fn quote(s: &str) -> (r: Option<String>)
    ensures
        r is Some,
        r.unwrap()@ == json_quoted(s@),
{
    serde_json::to_string(s).ok()
}

// ----- reading a JSON string literal back -----

/// The value of a hexadecimal digit.
pub open spec fn hex_value(c: char) -> int {
    if '0' <= c && c <= '9' {
        (c as u32) - 48
    } else if 'a' <= c && c <= 'f' {
        (c as u32) - 87
    } else if 'A' <= c && c <= 'F' {
        (c as u32) - 55
    } else {
        0
    }
}

/// Decodes the escapes of the inside of a JSON string literal.
pub open spec fn unescape(e: Seq<char>) -> Seq<char>
    decreases e.len(),
{
    if e.len() == 0 {
        Seq::empty()
    } else if e[0] == '\\' && e.len() >= 2 {
        let k = e[1];
        let rest = e.subrange(2, e.len() as int);
        if k == '"' {
            seq!['"'] + unescape(rest)
        } else if k == '\\' {
            seq!['\\'] + unescape(rest)
        } else if k == '/' {
            seq!['/'] + unescape(rest)
        } else if k == 'b' {
            seq!['\u{8}'] + unescape(rest)
        } else if k == 't' {
            seq!['\t'] + unescape(rest)
        } else if k == 'n' {
            seq!['\n'] + unescape(rest)
        } else if k == 'f' {
            seq!['\u{c}'] + unescape(rest)
        } else if k == 'r' {
            seq!['\r'] + unescape(rest)
        } else if k == 'u' && e.len() >= 6 {
            let v = 4096 * hex_value(e[2]) + 256 * hex_value(e[3]) + 16 * hex_value(e[4])
                + hex_value(e[5]);
            seq![(v as u32) as char] + unescape(e.subrange(6, e.len() as int))
        } else {
            seq![e[0]] + unescape(e.drop_first())
        }
    } else {
        seq![e[0]] + unescape(e.drop_first())
    }
}

proof fn lemma_unescape_char(c: char, tail: Seq<char>)
    ensures
        unescape(escape_char(c) + tail) == seq![c] + unescape(tail),
{
    let e = escape_char(c) + tail;
    if c == '"' || c == '\\' || c == '\u{8}' || c == '\t' || c == '\n' || c == '\u{c}' || c
        == '\r' {
        assert(e.subrange(2, e.len() as int) =~= tail);
    } else if (c as u32) < 32 {
        let u = c as u32;
        let ui = u as int;
        assert(hex_value(hex_digit(ui / 16)) == ui / 16);
        assert(hex_value(hex_digit(ui % 16)) == ui % 16);
        assert(hex_value('0') == 0);
        assert(e.subrange(6, e.len() as int) =~= tail);
        vstd::utf8::char_u32_cast(c, u);
    } else {
        assert(e.drop_first() =~= tail);
    }
}

/// Escaping loses nothing: decoding the escaped form of any text gives the
/// text back, character for character.
pub proof fn lemma_unescape_escape(s: Seq<char>)
    ensures
        unescape(escape(s)) == s,
    decreases s.len(),
{
    if s.len() > 0 {
        lemma_unescape_char(s[0], escape(s.drop_first()));
        lemma_unescape_escape(s.drop_first());
        assert(seq![s[0]] + s.drop_first() =~= s);
    } else {
        assert(escape(s) =~= Seq::<char>::empty());
        assert(s =~= Seq::<char>::empty());
    }
}

// ----- records -----

/// The consumer's channel that a record goes to.
#[derive(PartialEq, Eq, Structural, Clone, Copy, Debug)]
pub enum Channel {
    /// Stream parts: text, start and finish.
    Chunk,
    /// Error messages.
    Error,
    /// The end of the stream.
    End,
}

impl Channel {
    /// The name of the channel's event.
    pub fn name(&self) -> (r: &'static str)
        ensures
            r@ == channel_name(*self),
    {
        match self {
            Channel::Chunk => "ai-stream-chunk",
            Channel::Error => "ai-stream-error",
            Channel::End => "ai-stream-end",
        }
    }
}

pub open spec fn channel_name(c: Channel) -> Seq<char> {
    match c {
        Channel::Chunk => "ai-stream-chunk"@,
        Channel::Error => "ai-stream-error"@,
        Channel::End => "ai-stream-end"@,
    }
}

/// One record for the sink: a channel and its payload, if any.
#[derive(Debug, Clone, PartialEq, Eq)]
pub struct Record {
    pub channel: Channel,
    pub payload: Option<String>,
}

/// The line that carries a fragment of text: `0:` and the text as a JSON
/// string literal.
pub open spec fn text_line(t: Seq<char>) -> Seq<char> {
    seq!['0', ':'] + json_quoted(t) + seq!['\n']
}

/// The text that a consumer reads back from a text line: the inside of the
/// string literal, unescaped.
pub open spec fn text_of_line(l: Seq<char>) -> Option<Seq<char>> {
    if l.len() >= 5 && l.subrange(0, 3) == seq!['0', ':', '"'] && l.subrange(
        l.len() - 2,
        l.len() as int,
    ) == seq!['"', '\n'] {
        Some(unescape(l.subrange(3, l.len() - 2)))
    } else {
        None
    }
}

/// The line that opens a message.
pub open spec fn start_line(id: Option<Seq<char>>) -> Seq<char> {
    match id {
        Some(id) => "f:{\"messageId\":"@ + json_quoted(id) + "}\n"@,
        None => "f:{}\n"@,
    }
}

/// The line that finishes a message, with its token counts when known.
pub open spec fn finish_line(reason: Seq<char>, usage: Option<(Seq<char>, Seq<char>)>) -> Seq<
    char,
> {
    match usage {
        Some((a, b)) => "d:{\"finishReason\":"@ + json_quoted(reason) + ",\"usage\":{\"promptTokens\":"@
            + a + ",\"completionTokens\":"@ + b + "}}\n"@,
        None => "d:{\"finishReason\":"@ + json_quoted(reason) + "}\n"@,
    }
}

/// The record of one event.
pub open spec fn record_of(e: EventView) -> (Channel, Option<Seq<char>>) {
    match e {
        EventView::TextDelta(t) => (Channel::Chunk, Some(text_line(t))),
        EventView::StreamStart(id) => (Channel::Chunk, Some(start_line(id))),
        EventView::StreamFinish(r, u) => (Channel::Chunk, Some(finish_line(r, u))),
        EventView::StreamError(m) => (Channel::Error, Some(m)),
        EventView::StreamEnd => (Channel::End, None),
    }
}

pub open spec fn record_view(r: Record) -> (Channel, Option<Seq<char>>) {
    (
        r.channel,
        match r.payload {
            Some(p) => Some(p@),
            None => None,
        },
    )
}

fn quoted(s: &str) -> (r: String)
    ensures
        r@ == json_quoted(s@),
{
    quote(s).unwrap()
}

/// The line that carries the text `t`.
pub fn encode_text(t: &str) -> (r: String)
    ensures
        r@ == text_line(t@),
{
    let q = quoted(t);
    let l = join("0:", q.as_str());
    let l = join(l.as_str(), "\n");
    proof {
        reveal_strlit("0:");
        reveal_strlit("\n");
    }
    assert(l@ =~= text_line(t@));
    l
}

fn encode_finish(reason: &str, usage: &Option<Usage>) -> (r: String)
    ensures
        r@ == finish_line(reason@, crate::event::usage_view(*usage)),
{
    let head = join("d:{\"finishReason\":", quoted(reason).as_str());
    match usage {
        Some(u) => {
            let l = join(head.as_str(), ",\"usage\":{\"promptTokens\":");
            let l = join(l.as_str(), u.input_tokens.as_str());
            let l = join(l.as_str(), ",\"completionTokens\":");
            let l = join(l.as_str(), u.output_tokens.as_str());
            join(l.as_str(), "}}\n")
        },
        None => join(head.as_str(), "}\n"),
    }
}

/// The record that carries `e` to the sink.
pub fn encode(e: &NormalizedEvent) -> (r: Record)
    ensures
        record_view(r) == record_of(e@),
{
    match e {
        NormalizedEvent::TextDelta(t) => Record {
            channel: Channel::Chunk,
            payload: Some(encode_text(t.as_str())),
        },
        NormalizedEvent::StreamStart(id) => {
            let l = match id {
                Some(id) => {
                    let l = join("f:{\"messageId\":", quoted(id.as_str()).as_str());
                    join(l.as_str(), "}\n")
                },
                None => "f:{}\n".to_owned(),
            };
            Record { channel: Channel::Chunk, payload: Some(l) }
        },
        NormalizedEvent::StreamFinish(reason, usage) => Record {
            channel: Channel::Chunk,
            payload: Some(encode_finish(reason.as_str(), usage)),
        },
        NormalizedEvent::StreamError(m) => Record {
            channel: Channel::Error,
            payload: Some(m.clone()),
        },
        NormalizedEvent::StreamEnd => Record { channel: Channel::End, payload: None },
    }
}

/// A text delta survives transport: the consumer that reads the text line of
/// any text, embedded newlines, quotes and non-ASCII characters included, gets
/// that text back exactly.
pub proof fn lemma_text_line_round_trip(t: Seq<char>)
    ensures
        text_of_line(text_line(t)) == Some(t),
{
    let l = text_line(t);
    let e = escape(t);
    assert(l =~= seq!['0', ':', '"'] + e + seq!['"', '\n']);
    assert(l.subrange(0, 3) =~= seq!['0', ':', '"']);
    assert(l.subrange(l.len() - 2, l.len() as int) =~= seq!['"', '\n']);
    assert(l.subrange(3, l.len() - 2) =~= e);
    lemma_unescape_escape(t);
}

proof fn lemma_escape_char_no_line_feed(c: char)
    ensures
        forall|j: int| 0 <= j < escape_char(c).len() ==> escape_char(c)[j] != '\n',
{
    if (c as u32) < 32 && c != '\u{8}' && c != '\t' && c != '\n' && c != '\u{c}' && c != '\r' {
        let u = (c as u32) as int;
        assert(hex_value(hex_digit(u / 16)) == u / 16);
        assert(hex_value(hex_digit(u % 16)) == u % 16);
        assert(hex_digit(u / 16) != '\n');
        assert(hex_digit(u % 16) != '\n');
    }
}

proof fn lemma_escape_no_line_feed(s: Seq<char>)
    ensures
        forall|j: int| 0 <= j < escape(s).len() ==> escape(s)[j] != '\n',
    decreases s.len(),
{
    if s.len() > 0 {
        lemma_escape_char_no_line_feed(s[0]);
        lemma_escape_no_line_feed(s.drop_first());
        let a = escape_char(s[0]);
        let b = escape(s.drop_first());
        assert forall|j: int| 0 <= j < (a + b).len() implies (a + b)[j] != '\n' by {
            if j >= a.len() {
                assert((a + b)[j] == b[j - a.len()]);
            }
        }
    }
}

/// A text line is one line: whatever the text holds, its only line feed is
/// the last character, so the line-oriented channel carries each delta as a
/// single line.
pub proof fn lemma_text_line_is_one_line(t: Seq<char>)
    ensures
        text_line(t).len() > 0,
        text_line(t).last() == '\n',
        forall|j: int| 0 <= j < text_line(t).len() - 1 ==> text_line(t)[j] != '\n',
{
    let l = text_line(t);
    let e = escape(t);
    lemma_escape_no_line_feed(t);
    assert(l =~= seq!['0', ':', '"'] + e + seq!['"', '\n']);
    assert forall|j: int| 0 <= j < l.len() - 1 implies l[j] != '\n' by {
        if 3 <= j < 3 + e.len() {
            assert(l[j] == e[j - 3]);
        }
    }
}

} // verus!
