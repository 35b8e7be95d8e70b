//! An in-process token issuance and validation service combined with a
//! registry-driven command dispatcher.
//!
//! The token store owns the mapping from issued token values to their
//! metadata and lifecycle state; expiry is recomputed lazily on each access
//! rather than by a timer. The command registry is a static mapping from
//! command names and aliases to descriptors with per-command authorization
//! policy; the dispatcher parses raw input, validates an optional bearer
//! token against the caller's IP, and routes to the resolved command.

pub mod authenticate;
pub mod command;
pub mod commands;
pub mod config;
pub mod headers;
pub mod host;
pub mod registry;
pub mod response;
pub mod text;
