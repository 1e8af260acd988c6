//! Moderation and command core of a chat-bot backend.
//!
//! The crate keeps a registry of accounts with a totally ordered role
//! hierarchy, enforces who may change whose role or warning count,
//! escalates repeated warnings into a block, manages a shared set of
//! named text commands with creator-scoped edit rights, and records
//! every completed mutation as an append-only audit entry.

pub mod error;
pub mod laws;
pub mod models;
pub mod repository;
pub mod role;
