//! Client-side core of a read-only account-management REST client.
//!
//! The crate resolves user-supplied filters to a single query intent,
//! renders that intent as a resource path, and decodes the JSON bodies
//! that the upstream service returns into typed records.  Transport,
//! logging and flag parsing live outside this crate; it works purely on
//! values.
//!
//! - [`model`]: the typed records (accounts, persons, virtual
//!   organisations) and their ghost views;
//! - [`filter`]: resolution of optional filters to one query intent;
//! - [`paths`]: the intent-to-resource-path table;
//! - [`json`]: the JSON document model and pretty renderer;
//! - [`parse`]: the JSON text parser;
//! - [`codec`]: records to and from JSON documents, with the round-trip
//!   laws;
//! - [`dispatch`]: the per-invocation decision core gluing these
//!   together;
//! - [`errors`]: the structured error kinds.

pub mod codec;
pub mod dispatch;
pub mod errors;
pub mod filter;
pub mod json;
pub mod model;
pub mod parse;
pub mod paths;
pub mod text;
