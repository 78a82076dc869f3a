//! Compose projects, firewalls, keys, updates and quick actions.
pub mod compose;
pub mod admin;
