//! A social-graph and content store with a rule-based moderation workflow,
//! verified with Verus.
//!
//! - `text`: character sequences, substring search, case folding.
//! - `filter`: the content filter (keywords, shouting, repeated characters).
//! - `insights`: the deterministic content-scoring heuristic.
//! - `identity`, `table`: actor identities and the keyed tables built on them.
//! - `records`: accounts, updates, flags and warnings.
//! - `social`: the state and the operations that change it.
//! - `query`: timelines, searches and moderation queues.
//! - `laws`: properties across operations and states.
pub mod text;
pub mod identity;
pub mod table;
pub mod filter;
pub mod insights;
pub mod records;
pub mod social;
pub mod query;
pub mod laws;
