//! The editor's side of the engine link: a request/response correlation
//! layer over a message-oriented duplex transport, together with the small
//! decision rules of the editor shell around it — engine supervision gating,
//! palette scanning rules, floating panel bookkeeping, and the assistant-CLI
//! integration's classifications.
//!
//! The transport itself (sockets, processes, the file system) is driven by
//! the program embedding this crate; the crate takes plain values in and
//! hands plain values back, with the behavior of every function stated in
//! its contract.
pub mod bridge;
pub mod assistant;
pub mod engine;
pub mod json;
pub mod msg;
pub mod palette;
pub mod params;
pub mod text;
pub mod watch;
pub mod windows;
