//! Certificate-transparency monitoring: the deduplication of certificate
//! fingerprints across runs, the decoding of result rows, and the decisions
//! of the durable-state protocol.

pub mod engine;
pub mod error;
pub mod record;
pub mod render;
pub mod run;
pub mod state;
pub mod store;
pub mod text;
