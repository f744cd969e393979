//! Supervision and streaming-relay logic for a desktop app that talks to a
//! locally running agent service over HTTP and server-sent events (SSE).
//!
//! The crate holds the verified core: SSE frame parsing that is independent
//! of how the byte stream was chunked, event deduplication against
//! at-least-once upstream delivery, the dispatcher's request framing and
//! response handling, the service supervisor's state machine, and the
//! session-list view filter. The I/O itself (TCP probe, process spawn,
//! HTTP transport, UI event emission) lives outside the library and hands
//! plain values in and out.

pub mod ascii;
pub mod config;
pub mod dedup;
pub mod dispatch;
pub mod event;
pub mod relay;
pub mod request;
pub mod sessions;
pub mod sse;
pub mod supervisor;
