//! A newsletter service core: subscriber sign-up and confirmation, an
//! idempotency ledger that deduplicates publish requests, a transactional
//! outbox that records each newsletter issue together with its per-recipient
//! delivery obligations, and a delivery worker that drains those obligations
//! with bounded retry.

pub mod auth;
pub mod config;
pub mod delivery;
pub mod domain;
pub mod email;
pub mod idempotency;
pub mod issues;
pub mod newsletters;
pub mod password;
pub mod publish;
pub mod response;
pub mod subscribers;
pub mod text;
