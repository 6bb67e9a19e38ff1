//! Device sync engine: last-writer-wins replication of a fixed catalog of
//! tables between the devices of one owner, through an untrusted relay.
//!
//! The modules hold the engine's decisions and rules, each with its contract:
//! the replay model and its laws (`lww`), the statements that apply a winning
//! event (`sql`), the cycle state machine (`cycle`), the background loop
//! (`scheduler`), snapshot upload and bootstrap checks (`snapshot`), and the
//! local store's state (`store`, `outbox`).

pub mod cycle;
pub mod identifiers;
pub mod lww;
pub mod model;
pub mod options;
pub mod outbox;
pub mod pairing;
pub mod providers;
pub mod retry;
pub mod scheduler;
pub mod session;
pub mod snapshot;
pub mod sql;
pub mod store;
pub mod text;
