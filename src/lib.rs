//! Streaming translator for chat-completion event streams.
//!
//! Raw byte chunks of a `text/event-stream` response are reassembled into
//! event blocks, each block's `data:` payload is decoded against one of two
//! upstream schemas, and the result is re-emitted as one normalized event
//! sequence for a single consumer.
use vstd::prelude::*;

pub mod bytes;
pub mod decode;
pub mod event;
pub mod frame;
pub mod json;
pub mod payload;
pub mod provider;
pub mod record;
pub mod service;
pub mod session;

pub use decode::{decode, events_for_payload, normalize, DecodeFailure, ProviderEvent};
pub use event::{NormalizedEvent, Usage};
pub use frame::Reassembler;
pub use json::JsonValue;
pub use payload::{block_payload, BlockPayload};
pub use provider::{AnthropicProvider, OpenAIProvider, ProviderKind};
pub use record::{encode, encode_text, Channel, Record};
pub use service::ServiceResponse;
pub use session::{Phase, ProxyError, Session};
