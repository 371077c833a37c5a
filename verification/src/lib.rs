//! Core of a local peer-to-peer clipboard node: peer registry, control-plane
//! protocol and persisted state, with machine-checked contracts.

pub mod client;
pub mod clipboard;
pub mod control;
pub mod coordinator;
pub mod document;
pub mod identity;
pub mod json;
pub mod registry;
pub mod text;
