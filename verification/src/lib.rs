//! Kernel-side half of the Jupyter wire protocol: framing and codec for
//! multi-part wire messages, HMAC-SHA256 signing, a closed model of the
//! message content variants, and the busy/idle status state machine that
//! brackets every handled request.
//!
//! The crate is organized leaf-first: a verified JSON layer (model,
//! serializer, parser, and the proof that parsing inverts serialization),
//! the typed message contents and their JSON forms, the signature engine,
//! the wire codec, and the session dispatcher.

pub mod bytesutil;
pub mod decimal;
pub mod json;
pub mod json_obj;
pub mod json_parse;
pub mod json_props;
pub mod json_ser;

pub mod connection;
pub mod content;
pub mod content_comm;
pub mod content_error;
pub mod content_execute;
pub mod content_history;
pub mod content_is_complete;
pub mod content_kernel_info;
pub mod content_status;
pub mod header;
pub mod message_type;
pub mod reply_status;

pub mod dispatch;
pub mod execute;
pub mod message;
pub mod signature;
pub mod util;

pub use json::Json;
pub use message::Message;
