//! A paste store that keeps every document as a file in a git repository.
//!
//! The library holds the logic of the service: naming and fingerprinting of
//! pastes, the layout of a draft, the commit and push policy and the steps
//! of a create request as state machines, the idempotency ledger's
//! decisions, the access gate, the listing of recent pastes and the HTML
//! rendering helpers. Processes, files and the network are handled by the
//! caller, which performs each action a state machine hands out and reports
//! what came of it.

pub mod auth;
pub mod config;
pub mod digest;
pub mod errors;
pub mod flow;
pub mod gitops;
pub mod idempotency;
pub mod index;
pub mod preflight;
pub mod render;
pub mod text;
pub mod store;
pub mod types;
