//! Event-correlation core for a networking task: it matches completions coming
//! back from a peer-to-peer networking subsystem with the callers that
//! submitted the corresponding block requests.

pub mod history;
pub mod multiplexer;
pub mod reply;
pub mod table;
pub mod types;
