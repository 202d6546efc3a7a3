//! Verified core of a desktop IPC relay: a length-prefixed framing codec for
//! the browser-facing stdio channel, the broadcast hub embedded in the desktop
//! application, the reconnecting relay client run by the proxy process, and
//! the orchestration rules that tie stdin/stdout to the relay.

pub mod api;
pub mod codec;
pub mod hub;
pub mod orchestrator;
pub mod paths;
pub mod relay;
