//! Verified core of a guild moderation service.
//!
//! The crate models the moderation case lifecycle of a chat-platform guild:
//! a policy evaluator that guards every action behind role-hierarchy rules,
//! a case store with race-free per-guild case-id allocation, a log router
//! driven by a per-guild category bitmask, batch case removal, and the
//! decision logic of the background expiry sweeps. Platform and database
//! I/O stay outside; the functions here take plain values (identifiers,
//! seconds since the epoch, masks) and return decisions with proved
//! contracts.

pub mod case;
pub mod channel;
pub mod color;
pub mod executor;
pub mod localization;
pub mod log_types;
pub mod logs;
pub mod policy;
pub mod removal;
pub mod settings;
pub mod store;
pub mod strings;
pub mod sweeper;
pub mod time;
pub mod timestamp;
pub mod view;
