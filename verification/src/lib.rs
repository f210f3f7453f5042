//! A client-side WebSocket streaming engine: it establishes a connection
//! with a synthesized Origin header and caller-supplied headers, receives
//! protocol messages on a background loop, normalizes each Text or Binary
//! message into a newline-terminated chunk on a bounded channel, and serves
//! pull-based byte reads under a deadline and a cooperative cancellation
//! signal. Optionally it sends one outbound message first, framed as Text
//! exactly when the payload is valid text.

pub mod chunk;
pub mod errors;
pub mod numeral;
pub mod text;
pub mod frame;
pub mod bridge;
pub mod headers;
pub mod target;
pub mod plugin;
